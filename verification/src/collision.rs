//! Collisions: lasers against enemies, and enemies against the player.

use vstd::prelude::*;
use crate::enemy::{all_enemies_wf, Enemy, EnemyView};
use crate::geometry::{closer_than, views_of, within, Point, Pos};
use crate::laser::{all_lasers_wf, Laser, LaserView};
use crate::player::Player;
use crate::units::{in_world, HIT_RANGE, SCORE_BONUS, TOUCH_RANGE};

verus! {

/// Whether a laser is close enough to an enemy to hit it.
pub open spec fn hits(l: LaserView, e: EnemyView) -> bool {
    within(l.pos(), e.pos(), HIT_RANGE as int)
}

/// Whether an enemy is close enough to a player at `at` to hurt it.
pub open spec fn touches(at: Pos, e: EnemyView) -> bool {
    within(at, e.pos(), TOUCH_RANGE as int)
}

/// How many of the enemies a laser hits.
pub open spec fn hit_count(l: LaserView, es: Seq<EnemyView>) -> nat
    decreases es.len(),
{
    if es.len() == 0 {
        0
    } else {
        hit_count(l, es.drop_last()) + if hits(l, es.last()) {
            1nat
        } else {
            0nat
        }
    }
}

/// How many pairs of a laser and an enemy that it hits there are.
pub open spec fn pair_count(ls: Seq<LaserView>, es: Seq<EnemyView>) -> nat
    decreases ls.len(),
{
    if ls.len() == 0 {
        0
    } else {
        pair_count(ls.drop_last(), es) + hit_count(ls.last(), es)
    }
}

/// Whether a laser hits at least one of the enemies.
pub open spec fn laser_spent(l: LaserView, es: Seq<EnemyView>) -> bool {
    exists|j: int| 0 <= j < es.len() && hits(l, #[trigger] es[j])
}

/// Whether at least one of the lasers hits an enemy.
pub open spec fn enemy_shot(e: EnemyView, ls: Seq<LaserView>) -> bool {
    exists|i: int| 0 <= i < ls.len() && hits(#[trigger] ls[i], e)
}

/// The lasers that hit no enemy, in their order.
pub open spec fn surviving_lasers(ls: Seq<LaserView>, es: Seq<EnemyView>) -> Seq<LaserView> {
    ls.filter(|l: LaserView| !laser_spent(l, es))
}

/// The enemies that no laser hits, in their order.
pub open spec fn surviving_enemies(es: Seq<EnemyView>, ls: Seq<LaserView>) -> Seq<EnemyView> {
    es.filter(|e: EnemyView| !enemy_shot(e, ls))
}

/// How many of the enemies touch a player at `at`.
pub open spec fn touch_count(at: Pos, es: Seq<EnemyView>) -> nat
    decreases es.len(),
{
    if es.len() == 0 {
        0
    } else {
        touch_count(at, es.drop_last()) + if touches(at, es.last()) {
            1nat
        } else {
            0nat
        }
    }
}

/// The score after `pairs` hits: each hit is worth the bonus, and the score
/// stops at the largest number it can hold.
pub open spec fn score_after(score: int, pairs: nat) -> int {
    if score + SCORE_BONUS * pairs > i32::MAX {
        i32::MAX as int
    } else {
        score + SCORE_BONUS * pairs
    }
}

/// The health after `touching` enemies have each taken one point: it stops
/// at the smallest number it can hold.
pub open spec fn health_after(health: int, touching: nat) -> int {
    if health - touching < i32::MIN {
        i32::MIN as int
    } else {
        health - touching
    }
}

/// A laser is spent exactly when it hits at least one enemy.
pub proof fn lemma_spent_iff_hit(l: LaserView, es: Seq<EnemyView>)
    ensures
        laser_spent(l, es) <==> hit_count(l, es) > 0,
    decreases es.len(),
{
    if es.len() > 0 {
        let rest = es.drop_last();
        lemma_spent_iff_hit(l, rest);
        if laser_spent(l, es) {
            let j = choose|j: int| 0 <= j < es.len() && hits(l, #[trigger] es[j]);
            if j < es.len() - 1 {
                assert(hits(l, rest[j]));
            }
        }
    }
}

/// How many of the enemies a laser hits.
pub fn count_hits(laser: &Laser, enemies: &Vec<Enemy>) -> (n: usize)
    requires
        laser@.wf(),
        all_enemies_wf(views_of(enemies@)),
    ensures
        n == hit_count(laser@, views_of(enemies@)),
{
    let ghost es = views_of(enemies@);
    let at = Point { x: laser.x, y: laser.y };
    let mut n: usize = 0;
    let mut j: usize = 0;
    while j < enemies.len()
        invariant
            j <= enemies.len(),
            es == views_of(enemies@),
            all_enemies_wf(es),
            in_world(at.x as int),
            in_world(at.y as int),
            at@ == laser@.pos(),
            n <= j,
            n == hit_count(laser@, es.take(j as int)),
        decreases enemies.len() - j,
    {
        assert(es[j as int].wf());
        assert(es.take(j as int + 1).drop_last() =~= es.take(j as int));
        let e = &enemies[j];
        if closer_than(at, Point { x: e.x, y: e.y }, HIT_RANGE) {
            n += 1;
        }
        j += 1;
    }
    assert(es.take(enemies.len() as int) =~= es);
    n
}

/// Whether at least one of the lasers hits an enemy.
pub fn shot_by_any(enemy: &Enemy, lasers: &Vec<Laser>) -> (r: bool)
    requires
        enemy@.wf(),
        all_lasers_wf(views_of(lasers@)),
    ensures
        r == enemy_shot(enemy@, views_of(lasers@)),
{
    let ghost ls = views_of(lasers@);
    let at = Point { x: enemy.x, y: enemy.y };
    let mut i: usize = 0;
    while i < lasers.len()
        invariant
            i <= lasers.len(),
            ls == views_of(lasers@),
            all_lasers_wf(ls),
            in_world(at.x as int),
            in_world(at.y as int),
            at@ == enemy@.pos(),
            forall|k: int| 0 <= k < i ==> !hits(#[trigger] ls[k], enemy@),
        decreases lasers.len() - i,
    {
        assert(ls[i as int].wf());
        let l = &lasers[i];
        if closer_than(Point { x: l.x, y: l.y }, at, HIT_RANGE) {
            return true;
        }
        i += 1;
    }
    false
}

/// How many of the enemies touch the player.
pub fn count_touching(player: &Player, enemies: &Vec<Enemy>) -> (n: usize)
    requires
        player@.wf(),
        all_enemies_wf(views_of(enemies@)),
    ensures
        n == touch_count(player@.pos(), views_of(enemies@)),
{
    let ghost es = views_of(enemies@);
    let at = Point { x: player.x, y: player.y };
    let mut n: usize = 0;
    let mut j: usize = 0;
    while j < enemies.len()
        invariant
            j <= enemies.len(),
            es == views_of(enemies@),
            all_enemies_wf(es),
            in_world(at.x as int),
            in_world(at.y as int),
            at@ == player@.pos(),
            n <= j,
            n == touch_count(player@.pos(), es.take(j as int)),
        decreases enemies.len() - j,
    {
        assert(es[j as int].wf());
        assert(es.take(j as int + 1).drop_last() =~= es.take(j as int));
        let e = &enemies[j];
        if closer_than(at, Point { x: e.x, y: e.y }, TOUCH_RANGE) {
            n += 1;
        }
        j += 1;
    }
    assert(es.take(enemies.len() as int) =~= es);
    n
}

/// The score after `pairs` more hits.
pub fn add_hits(score: i32, pairs: usize) -> (r: i32)
    ensures
        r == score_after(score as int, pairs as nat),
{
    let gain: i128 = SCORE_BONUS as i128;
    let total: i128 = score as i128 + gain * (pairs as i128);
    if total > i32::MAX as i128 {
        i32::MAX
    } else {
        total as i32
    }
}

/// The health after `touching` enemies have each taken one point.
pub fn take_damage(health: i32, touching: usize) -> (r: i32)
    ensures
        r == health_after(health as int, touching as nat),
{
    let left: i128 = health as i128 - touching as i128;
    if left < i32::MIN as i128 {
        i32::MIN
    } else {
        left as i32
    }
}

/// Removes every laser that hits an enemy and scores each hit.
pub fn strike(lasers: &Vec<Laser>, enemies: &Vec<Enemy>, score: i32) -> (r: (Vec<Laser>, i32))
    requires
        all_lasers_wf(views_of(lasers@)),
        all_enemies_wf(views_of(enemies@)),
    ensures
        views_of(r.0@) == surviving_lasers(views_of(lasers@), views_of(enemies@)),
        all_lasers_wf(views_of(r.0@)),
        r.1 == score_after(
            score as int,
            pair_count(views_of(lasers@), views_of(enemies@)),
        ),
{
    let ghost ls = views_of(lasers@);
    let ghost es = views_of(enemies@);
    let ghost keep = |l: LaserView| !laser_spent(l, es);
    let mut out: Vec<Laser> = Vec::new();
    let mut total = score;
    let mut i: usize = 0;
    proof {
        reveal(Seq::filter);
    }
    while i < lasers.len()
        invariant
            i <= lasers.len(),
            ls == views_of(lasers@),
            es == views_of(enemies@),
            keep == |l: LaserView| !laser_spent(l, es),
            all_lasers_wf(ls),
            all_enemies_wf(es),
            all_lasers_wf(views_of(out@)),
            views_of(out@) == ls.take(i as int).filter(keep),
            total == score_after(score as int, pair_count(ls.take(i as int), es)),
        decreases lasers.len() - i,
    {
        assert(ls[i as int].wf());
        let n = count_hits(&lasers[i], enemies);
        let ghost before = views_of(out@);
        proof {
            assert(ls.take(i as int + 1) =~= ls.take(i as int).push(ls[i as int]));
            assert(ls.take(i as int + 1).drop_last() =~= ls.take(i as int));
            ls.take(i as int).lemma_filter_push(ls[i as int], keep);
            lemma_spent_iff_hit(ls[i as int], es);
        }
        total = add_hits(total, n);
        if n == 0 {
            out.push(lasers[i]);
            proof {
                assert forall|j: int| 0 <= j < out.len() implies (#[trigger] views_of(
                    out@,
                )[j]).wf() by {
                    if j < out.len() - 1 {
                        assert(before[j].wf());
                    }
                }
            }
        }
        i += 1;
    }
    assert(ls.take(lasers.len() as int) =~= ls);
    (out, total)
}

/// Removes every enemy that a laser hits.
pub fn clear_shot(enemies: &Vec<Enemy>, lasers: &Vec<Laser>) -> (out: Vec<Enemy>)
    requires
        all_lasers_wf(views_of(lasers@)),
        all_enemies_wf(views_of(enemies@)),
    ensures
        views_of(out@) == surviving_enemies(views_of(enemies@), views_of(lasers@)),
        all_enemies_wf(views_of(out@)),
{
    let ghost ls = views_of(lasers@);
    let ghost es = views_of(enemies@);
    let ghost keep = |e: EnemyView| !enemy_shot(e, ls);
    let mut out: Vec<Enemy> = Vec::new();
    let mut j: usize = 0;
    proof {
        reveal(Seq::filter);
    }
    while j < enemies.len()
        invariant
            j <= enemies.len(),
            ls == views_of(lasers@),
            es == views_of(enemies@),
            keep == |e: EnemyView| !enemy_shot(e, ls),
            all_lasers_wf(ls),
            all_enemies_wf(es),
            all_enemies_wf(views_of(out@)),
            views_of(out@) == es.take(j as int).filter(keep),
        decreases enemies.len() - j,
    {
        let ghost before = views_of(out@);
        proof {
            assert(es.take(j as int + 1) =~= es.take(j as int).push(es[j as int]));
            es.take(j as int).lemma_filter_push(es[j as int], keep);
        }
        if !shot_by_any(&enemies[j], lasers) {
            out.push(enemies[j]);
            proof {
                assert forall|k: int| 0 <= k < out.len() implies (#[trigger] views_of(
                    out@,
                )[k]).wf() by {
                    if k < out.len() - 1 {
                        assert(before[k].wf());
                    }
                }
            }
        }
        j += 1;
    }
    assert(es.take(enemies.len() as int) =~= es);
    out
}

} // verus!

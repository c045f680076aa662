//! What holds of the game whatever is played, stated over its mathematical
//! model and proved.

use vstd::prelude::*;
use crate::collision::{
    enemy_shot, health_after, hit_count, hits, laser_spent, lemma_spent_iff_hit, pair_count,
    surviving_enemies, surviving_lasers, touch_count,
};
use crate::enemy::EnemyView;
use crate::geometry::{lemma_unit_toward_length, unit_toward, Pos};
use crate::game::GameView;
use crate::input::{axis, reach, Input};
use crate::laser::{advance_all, lasers_after, LaserView};
use crate::player::PlayerView;
use crate::screen::Bounds;
use crate::spawner::{spawn_due, timer_after, valid_roll};
use crate::units::{
    ENEMY_SPEED, LASER_SPEED, MICRO, PLAYER_SPEED, SCORE_BONUS, SPAWN_INTERVAL, START_HEALTH,
};

verus! {

/// The sum of the lengths of a run of frames.
pub open spec fn total_time(dts: Seq<int>) -> int
    decreases dts.len(),
{
    if dts.len() == 0 {
        0
    } else {
        dts.first() + total_time(dts.drop_first())
    }
}

/// A beam after a run of frames, were it never dropped.
pub open spec fn flown(l: LaserView, dts: Seq<int>) -> LaserView
    decreases dts.len(),
{
    if dts.len() == 0 {
        l
    } else {
        flown(l.advanced(dts.first()), dts.drop_first())
    }
}

/// How many spawns a run of frames brings, from a given timer.
pub open spec fn spawn_count(timer: int, dts: Seq<int>) -> nat
    decreases dts.len(),
{
    if dts.len() == 0 {
        0
    } else {
        (if spawn_due(timer, dts.first()) {
            1nat
        } else {
            0nat
        }) + spawn_count(timer_after(timer, dts.first()), dts.drop_first())
    }
}

/// The spawn timer after a run of frames.
pub open spec fn timer_at_end(timer: int, dts: Seq<int>) -> int
    decreases dts.len(),
{
    if dts.len() == 0 {
        timer
    } else {
        timer_at_end(timer_after(timer, dts.first()), dts.drop_first())
    }
}

/// After steering, the whole square of the player is inside the screen.
pub proof fn lemma_steering_stays_on_screen(
    p: PlayerView,
    heading: (int, int),
    b: Bounds,
    dt: int,
)
    requires
        b.valid(),
    ensures
        p.moved(heading, b, dt).in_bounds(b),
{
}

/// After every frame of a game that is not over, the whole square of the
/// player is inside the screen of that frame.
pub proof fn lemma_frame_keeps_player_on_screen(
    s: GameView,
    input: Input,
    b: Bounds,
    dt: int,
    side: int,
    along: int,
)
    requires
        b.valid(),
        !s.game_over,
    ensures
        s.frame(input, b, dt, side, along).player.in_bounds(b),
{
}

/// A player inside the screen whose movement controls cancel out stays
/// where it is, however long the frame.
pub proof fn lemma_idle_player_stays(p: PlayerView, input: Input, b: Bounds, dt: int)
    requires
        axis(input.left, input.right) == 0,
        axis(input.up, input.down) == 0,
        p.in_bounds(b),
    ensures
        p.moved(input.heading(), b, dt) == p,
{
}

/// With both axes active the player is no faster than along one axis, and
/// slower by less than one part in a thousand: the squared length of the
/// diagonal step lies between that of 0.999 axial steps and that of one.
pub proof fn lemma_diagonal_speed(input: Input, dt: int)
    requires
        axis(input.left, input.right) != 0,
        axis(input.up, input.down) != 0,
    ensures
        ({
            let dx = input.heading().0 * PLAYER_SPEED * dt;
            let dy = input.heading().1 * PLAYER_SPEED * dt;
            let axial = MICRO * PLAYER_SPEED * dt;
            &&& dx * dx + dy * dy <= axial * axial
            &&& 999 * 999 * (axial * axial) <= 1000 * 1000 * (dx * dx + dy * dy)
        }),
{
    let hx = input.heading().0;
    let hy = input.heading().1;
    let ax = axis(input.left, input.right);
    let ay = axis(input.up, input.down);
    let len = reach(ax, ay);
    assert(hx == 707_000 || hx == -707_000) by (nonlinear_arith)
        requires
            hx == ax * len,
            len == 707_000,
            ax == 1 || ax == -1,
    ;
    assert(hy == 707_000 || hy == -707_000) by (nonlinear_arith)
        requires
            hy == ay * len,
            len == 707_000,
            ay == 1 || ay == -1,
    ;
    let k = PLAYER_SPEED * dt;
    let dx = hx * PLAYER_SPEED * dt;
    let dy = hy * PLAYER_SPEED * dt;
    let axial = MICRO * PLAYER_SPEED * dt;
    assert(dx * dx == 499_849_000_000 * (k * k)) by (nonlinear_arith)
        requires
            hx == 707_000 || hx == -707_000,
            dx == hx * PLAYER_SPEED * dt,
            k == PLAYER_SPEED * dt,
    ;
    assert(dy * dy == 499_849_000_000 * (k * k)) by (nonlinear_arith)
        requires
            hy == 707_000 || hy == -707_000,
            dy == hy * PLAYER_SPEED * dt,
            k == PLAYER_SPEED * dt,
    ;
    assert(axial * axial == 1_000_000_000_000 * (k * k)) by (nonlinear_arith)
        requires
            axial == MICRO * PLAYER_SPEED * dt,
            MICRO == 1_000_000,
            k == PLAYER_SPEED * dt,
    ;
    assert(k * k >= 0) by (nonlinear_arith);
    let kk = k * k;
    assert(999 * 999 * (axial * axial) == 998001 * (1_000_000_000_000 * kk));
    assert(1000 * 1000 * (dx * dx + dy * dy) == 1000000 * (999_698_000_000 * kk));
}

/// Flying for one stretch of time and then another is flying for their sum.
pub proof fn lemma_flight_adds_up(l: LaserView, t1: int, t2: int)
    ensures
        l.advanced(t1).advanced(t2) == l.advanced(t1 + t2),
{
    assert(l.dx * LASER_SPEED * t1 + l.dx * LASER_SPEED * t2 == l.dx * LASER_SPEED * (t1 + t2))
        by (nonlinear_arith);
    assert(l.dy * LASER_SPEED * t1 + l.dy * LASER_SPEED * t2 == l.dy * LASER_SPEED * (t1 + t2))
        by (nonlinear_arith);
}

/// A beam that is not dropped flies in a straight line: after any run of
/// frames it is at its origin plus its direction times the laser speed
/// times the time that has passed, exactly.
pub proof fn lemma_flight_is_linear(l: LaserView, dts: Seq<int>)
    ensures
        flown(l, dts) == l.advanced(total_time(dts)),
        flown(l, dts).x == l.x + l.dx * LASER_SPEED * total_time(dts),
        flown(l, dts).y == l.y + l.dy * LASER_SPEED * total_time(dts),
    decreases dts.len(),
{
    if dts.len() > 0 {
        lemma_flight_is_linear(l.advanced(dts.first()), dts.drop_first());
        lemma_flight_adds_up(l, dts.first(), total_time(dts.drop_first()));
    }
}

/// Every beam that is left after a frame is inside the widened screen or on
/// its edge, so a beam whose new position is outside is not among them.
pub proof fn lemma_off_screen_laser_dropped(ls: Seq<LaserView>, b: Bounds, dt: int, i: int)
    requires
        0 <= i < ls.len(),
        !ls[i].advanced(dt).on_screen(b),
    ensures
        !lasers_after(ls, b, dt).contains(ls[i].advanced(dt)),
        forall|k: int|
            0 <= k < lasers_after(ls, b, dt).len() ==> (#[trigger] lasers_after(
                ls,
                b,
                dt,
            )[k]).on_screen(b),
{
}

/// A beam whose new position is inside the widened screen or on its edge
/// is still there after the frame.
pub proof fn lemma_on_screen_laser_kept(ls: Seq<LaserView>, b: Bounds, dt: int, i: int)
    requires
        0 <= i < ls.len(),
        ls[i].advanced(dt).on_screen(b),
    ensures
        lasers_after(ls, b, dt).contains(ls[i].advanced(dt)),
{
    let flown = advance_all(ls, dt);
    assert(flown[i] == ls[i].advanced(dt));
    flown.lemma_filter_contains(|l: LaserView| l.on_screen(b), i);
}

/// Between two spawns more than one spawn interval passes, and no more than
/// one interval and the longest frame. So over any run of frames the time
/// that has passed bounds the number of spawns from both sides.
pub proof fn lemma_spawn_count_bounds(timer: int, dts: Seq<int>, longest: int)
    requires
        0 <= timer <= SPAWN_INTERVAL,
        forall|i: int| 0 <= i < dts.len() ==> 0 <= #[trigger] dts[i] <= longest,
    ensures
        0 <= timer_at_end(timer, dts) <= SPAWN_INTERVAL,
        spawn_count(timer, dts) * (SPAWN_INTERVAL + 1) + timer_at_end(timer, dts) <= timer
            + total_time(dts),
        timer + total_time(dts) <= spawn_count(timer, dts) * (SPAWN_INTERVAL + longest)
            + timer_at_end(timer, dts),
    decreases dts.len(),
{
    if dts.len() == 0 {
        assert(0 * (SPAWN_INTERVAL + longest) == 0) by (nonlinear_arith);
    } else {
        let rest = dts.drop_first();
        let next = timer_after(timer, dts.first());
        lemma_spawn_count_bounds(next, rest, longest);
        let n = spawn_count(next, rest);
        assert((n + 1) * (SPAWN_INTERVAL + longest) == n * (SPAWN_INTERVAL + longest)
            + SPAWN_INTERVAL + longest) by (nonlinear_arith);
    }
}

/// From a timer at zero, a run of frames that lasts `n` spawn intervals
/// brings at most `n` spawns.
pub proof fn lemma_at_most_one_spawn_per_interval(dts: Seq<int>, n: int)
    requires
        forall|i: int| 0 <= i < dts.len() ==> 0 <= #[trigger] dts[i],
        total_time(dts) == n * SPAWN_INTERVAL,
    ensures
        spawn_count(0, dts) <= n,
{
    lemma_total_time_bounds(dts);
    let longest = total_time(dts);
    lemma_spawn_count_bounds(0, dts, longest);
}

/// No frame of a run is longer than the whole run.
proof fn lemma_total_time_bounds(dts: Seq<int>)
    requires
        forall|i: int| 0 <= i < dts.len() ==> 0 <= #[trigger] dts[i],
    ensures
        0 <= total_time(dts),
        forall|i: int| 0 <= i < dts.len() ==> #[trigger] dts[i] <= total_time(dts),
    decreases dts.len(),
{
    if dts.len() > 0 {
        let rest = dts.drop_first();
        lemma_total_time_bounds(rest);
        assert forall|i: int| 0 <= i < dts.len() implies #[trigger] dts[i] <= total_time(dts) by {
            if i > 0 {
                assert(dts[i] == rest[i - 1]);
            }
        }
    }
}

/// There are at least as many hits as any one laser makes.
proof fn lemma_pair_count_covers(ls: Seq<LaserView>, es: Seq<EnemyView>, i: int)
    requires
        0 <= i < ls.len(),
    ensures
        hit_count(ls[i], es) <= pair_count(ls, es),
    decreases ls.len(),
{
    if i < ls.len() - 1 {
        lemma_pair_count_covers(ls.drop_last(), es, i);
    }
}

/// A laser that hits an enemy is gone after the collisions, the enemy is
/// gone too, and the pair has scored.
pub proof fn lemma_hit_removes_both(ls: Seq<LaserView>, es: Seq<EnemyView>, i: int, j: int)
    requires
        0 <= i < ls.len(),
        0 <= j < es.len(),
        hits(ls[i], es[j]),
    ensures
        !surviving_lasers(ls, es).contains(ls[i]),
        !surviving_enemies(es, ls).contains(es[j]),
        pair_count(ls, es) >= 1,
{
    let keep_laser = |l: LaserView| !laser_spent(l, es);
    let keep_enemy = |e: EnemyView| !enemy_shot(e, ls);
    if surviving_lasers(ls, es).contains(ls[i]) {
        let k = choose|k: int|
            0 <= k < surviving_lasers(ls, es).len() && surviving_lasers(ls, es)[k] == ls[i];
        ls.lemma_filter_pred(keep_laser, k);
    }
    if surviving_enemies(es, ls).contains(es[j]) {
        let k = choose|k: int|
            0 <= k < surviving_enemies(es, ls).len() && surviving_enemies(es, ls)[k] == es[j];
        es.lemma_filter_pred(keep_enemy, k);
    }
    lemma_spent_iff_hit(ls[i], es);
    lemma_pair_count_covers(ls, es, i);
}

/// After the collisions nothing is left to remove: no laser that is left
/// is in reach of an enemy that is left.
pub proof fn lemma_no_hit_left(ls: Seq<LaserView>, es: Seq<EnemyView>, i: int, j: int)
    requires
        0 <= i < surviving_lasers(ls, es).len(),
        0 <= j < surviving_enemies(es, ls).len(),
    ensures
        !hits(surviving_lasers(ls, es)[i], surviving_enemies(es, ls)[j]),
{
    let keep_laser = |l: LaserView| !laser_spent(l, es);
    let keep_enemy = |e: EnemyView| !enemy_shot(e, ls);
    ls.lemma_filter_pred(keep_laser, i);
    es.lemma_filter_contains_rev(keep_enemy, surviving_enemies(es, ls)[j]);
}

/// One laser and one enemy at the same place: the collisions remove both
/// and add exactly one bonus to the score.
pub proof fn lemma_coincident_pair(s: GameView, l: LaserView, e: EnemyView)
    requires
        s.lasers == seq![l],
        s.enemies == seq![e],
        l.pos() == e.pos(),
        s.score + SCORE_BONUS <= i32::MAX,
    ensures
        s.collision_phase().lasers.len() == 0,
        s.collision_phase().enemies.len() == 0,
        s.collision_phase().score == s.score + SCORE_BONUS,
{
    assert(hits(l, e)) by (nonlinear_arith)
        requires
            l.pos() == e.pos(),
    {
    }
    assert(hits(s.lasers[0], s.enemies[0]));
    reveal_with_fuel(Seq::filter, 2);
    assert(hit_count(l, s.enemies) == 1) by {
        reveal_with_fuel(hit_count, 2);
    }
    assert(pair_count(s.lasers, s.enemies) == 1) by {
        reveal_with_fuel(pair_count, 2);
    }
}

/// One laser and one enemy at the same place on screen: a frame in which no
/// time passes and no shot is fired removes both and adds exactly one bonus
/// to the score.
pub proof fn lemma_coincident_pair_frame(
    s: GameView,
    l: LaserView,
    e: EnemyView,
    input: Input,
    b: Bounds,
    side: int,
    along: int,
)
    requires
        s.wf(),
        !s.game_over,
        s.lasers == seq![l],
        s.enemies == seq![e],
        l.pos() == e.pos(),
        l.on_screen(b),
        input.fire == 0,
        s.score + SCORE_BONUS <= i32::MAX,
    ensures
        s.frame(input, b, 0, side, along).lasers.len() == 0,
        s.frame(input, b, 0, side, along).enemies.len() == 0,
        s.frame(input, b, 0, side, along).score == s.score + SCORE_BONUS,
{
    let s1 = s.player_phase(input, b, 0);
    assert(s1.lasers =~= seq![l]);
    let s2 = s1.laser_phase(b, 0);
    assert(l.advanced(0) == l) by {
        assert(l.dx * LASER_SPEED * 0 == 0) by (nonlinear_arith);
        assert(l.dy * LASER_SPEED * 0 == 0) by (nonlinear_arith);
    }
    assert(advance_all(s1.lasers, 0) =~= seq![l]);
    assert(s2.lasers =~= seq![l]) by {
        reveal_with_fuel(Seq::filter, 2);
        assert(seq![l].drop_last() =~= Seq::<LaserView>::empty());
    }
    let s3 = s2.enemy_phase(0);
    assert(e.chased(s2.player.pos(), 0) == e) by {
        if unit_toward(e.pos(), s2.player.pos()) is Some {
            let (ux, uy) = unit_toward(e.pos(), s2.player.pos()).unwrap();
            assert(ux * ENEMY_SPEED * 0 == 0) by (nonlinear_arith);
            assert(uy * ENEMY_SPEED * 0 == 0) by (nonlinear_arith);
        }
    }
    assert(s3.enemies =~= seq![e]);
    let s4 = s3.spawn_phase(b, 0, side, along);
    lemma_coincident_pair(s4, l, e);
}

/// The collisions take from the player exactly one point of health for
/// every enemy that is left and touches it, as long as the health can hold
/// the result.
pub proof fn lemma_damage_counts_touching(s: GameView)
    requires
        s.player.health - touch_count(s.player.pos(), surviving_enemies(s.enemies, s.lasers))
            >= i32::MIN,
    ensures
        s.collision_phase().player.health == s.player.health - touch_count(
            s.player.pos(),
            surviving_enemies(s.enemies, s.lasers),
        ),
{
}

/// A frame takes from the player exactly one point of health for every
/// enemy that, once the frame is done, is still there and touches the
/// player where it then is; the health stops at the smallest number it can
/// hold.
pub proof fn lemma_frame_damage(
    s: GameView,
    input: Input,
    b: Bounds,
    dt: int,
    side: int,
    along: int,
)
    requires
        !s.game_over,
    ensures
        s.frame(input, b, dt, side, along).player.health == health_after(
            s.player.health,
            touch_count(
                s.frame(input, b, dt, side, along).player.pos(),
                s.frame(input, b, dt, side, along).enemies,
            ),
        ),
{
}

/// A game that is over does not change from frame to frame.
pub proof fn lemma_over_is_frozen(
    s: GameView,
    input: Input,
    b: Bounds,
    dt: int,
    side: int,
    along: int,
)
    requires
        s.game_over,
    ensures
        s.frame(input, b, dt, side, along) == s,
        !input.restart ==> s.restarted(input.restart, b).frame(input, b, dt, side, along) == s,
{
}

/// After a frame the game is over exactly if the player has no health
/// left.
pub proof fn lemma_out_of_health_ends(
    s: GameView,
    input: Input,
    b: Bounds,
    dt: int,
    side: int,
    along: int,
)
    requires
        s.wf(),
    ensures
        s.frame(input, b, dt, side, along).game_over <==> s.frame(
            input,
            b,
            dt,
            side,
            along,
        ).player.health <= 0,
{
}

/// A restart of a game that is over gives a game that is on, with no
/// score, no enemies and no lasers, and the player in the middle of the
/// screen, inside it, with full health.
pub proof fn lemma_restart_is_fresh(s: GameView, b: Bounds)
    requires
        s.game_over,
        b.valid(),
    ensures
        s.restarted(true, b) == GameView::fresh(b),
        !s.restarted(true, b).game_over,
        s.restarted(true, b).score == 0,
        s.restarted(true, b).timer == 0,
        s.restarted(true, b).enemies.len() == 0,
        s.restarted(true, b).lasers.len() == 0,
        s.restarted(true, b).player.x == b.width / 2,
        s.restarted(true, b).player.y == b.height / 2,
        s.restarted(true, b).player.health == START_HEALTH,
        s.restarted(true, b).player.in_bounds(b),
        s.restarted(true, b).wf(),
{
}

/// A shot flies in a direction that is a unit long up to rounding: no
/// component is longer than a unit and the squared length is within two
/// millionths of one.
pub proof fn lemma_shot_is_nearly_unit(p: PlayerView, pointer: Pos)
    ensures
        -MICRO <= p.shot(pointer).dx <= MICRO,
        -MICRO <= p.shot(pointer).dy <= MICRO,
        MICRO * MICRO - 2 * MICRO <= p.shot(pointer).dx * p.shot(pointer).dx + p.shot(
            pointer,
        ).dy * p.shot(pointer).dy <= MICRO * MICRO + 2 * MICRO,
        p.shot(pointer).pos() == p.pos(),
{
    if p.pos() != pointer {
        lemma_unit_toward_length(p.pos(), pointer);
    }
}

/// Steering and firing keep a well-formed state well formed.
pub proof fn lemma_player_phase_wf(s: GameView, input: Input, b: Bounds, dt: int)
    requires
        s.wf(),
        b.valid(),
    ensures
        s.player_phase(input, b, dt).wf(),
{
    lemma_shot_is_nearly_unit(s.player_phase(input, b, dt).player, input.pointer@);
}

/// The flight of the lasers keeps a well-formed state well formed.
pub proof fn lemma_laser_phase_wf(s: GameView, b: Bounds, dt: int)
    requires
        s.wf(),
        b.valid(),
    ensures
        s.laser_phase(b, dt).wf(),
{
    let t = s.laser_phase(b, dt);
    let flown = advance_all(s.lasers, dt);
    let keep = |l: LaserView| l.on_screen(b);
    assert forall|i: int| 0 <= i < t.lasers.len() implies (#[trigger] t.lasers[i]).wf() by {
        let l = t.lasers[i];
        flown.lemma_filter_pred(keep, i);
        assert(flown.filter(keep).contains(l));
        flown.lemma_filter_contains_rev(keep, l);
        let k = choose|k: int| 0 <= k < flown.len() && flown[k] == l;
        assert(s.lasers[k].wf());
    }
}

/// The walk of the enemies keeps a well-formed state well formed.
pub proof fn lemma_enemy_phase_wf(s: GameView, dt: int)
    requires
        s.wf(),
        0 <= dt <= u32::MAX,
    ensures
        s.enemy_phase(dt).wf(),
{
    let t = s.enemy_phase(dt);
    let target = s.player.pos();
    assert forall|i: int| 0 <= i < t.enemies.len() implies (#[trigger] t.enemies[i]).wf() by {
        let e = s.enemies[i];
        assert(e.wf());
        assert(t.enemies[i] == e.chased(target, dt));
        if e.pos() != target {
            lemma_unit_toward_length(e.pos(), target);
            let (ux, uy) = unit_toward(e.pos(), target).unwrap();
            let sx = ux * ENEMY_SPEED * dt;
            let sy = uy * ENEMY_SPEED * dt;
            assert((ux >= 0 ==> 0 <= sx <= 1_000_000 * 50 * 0xffff_ffff) && (ux <= 0 ==> -1_000_000 * 50
                * 0xffff_ffff <= sx <= 0)) by (nonlinear_arith)
                requires
                    sx == ux * ENEMY_SPEED * dt,
                    ENEMY_SPEED == 50,
                    -1_000_000 <= ux <= 1_000_000,
                    0 <= dt <= 0xffff_ffff,
            ;
            assert((uy >= 0 ==> 0 <= sy <= 1_000_000 * 50 * 0xffff_ffff) && (uy <= 0 ==> -1_000_000 * 50
                * 0xffff_ffff <= sy <= 0)) by (nonlinear_arith)
                requires
                    sy == uy * ENEMY_SPEED * dt,
                    ENEMY_SPEED == 50,
                    -1_000_000 <= uy <= 1_000_000,
                    0 <= dt <= 0xffff_ffff,
            ;
        }
    }
}

/// The spawner keeps a well-formed state well formed.
pub proof fn lemma_spawn_phase_wf(s: GameView, b: Bounds, dt: int, side: int, along: int)
    requires
        s.wf(),
        b.valid(),
        0 <= dt,
        valid_roll(side, along, b),
    ensures
        s.spawn_phase(b, dt, side, along).wf(),
{
}

/// The collisions keep a well-formed state well formed.
pub proof fn lemma_collision_phase_wf(s: GameView)
    requires
        s.wf(),
    ensures
        s.collision_phase().wf(),
{
    let t = s.collision_phase();
    let keep_laser = |l: LaserView| !laser_spent(l, s.enemies);
    let keep_enemy = |e: EnemyView| !enemy_shot(e, s.lasers);
    assert forall|i: int| 0 <= i < t.lasers.len() implies (#[trigger] t.lasers[i]).wf() by {
        let l = t.lasers[i];
        assert(s.lasers.filter(keep_laser).contains(l));
        s.lasers.lemma_filter_contains_rev(keep_laser, l);
        let k = choose|k: int| 0 <= k < s.lasers.len() && s.lasers[k] == l;
        assert(s.lasers[k].wf());
    }
    assert forall|i: int| 0 <= i < t.enemies.len() implies (#[trigger] t.enemies[i]).wf() by {
        let e = t.enemies[i];
        assert(s.enemies.filter(keep_enemy).contains(e));
        s.enemies.lemma_filter_contains_rev(keep_enemy, e);
        let k = choose|k: int| 0 <= k < s.enemies.len() && s.enemies[k] == e;
        assert(s.enemies[k].wf());
    }
}

/// Every frame takes a well-formed state to a well-formed state: the
/// player stays where a screen can hold it, every enemy and laser stays in
/// the world, the timer stays within the spawn interval, and a game that is
/// over has a player without health.
pub proof fn lemma_frame_wf(s: GameView, input: Input, b: Bounds, dt: int, side: int, along: int)
    requires
        s.wf(),
        b.valid(),
        0 <= dt <= u32::MAX,
        valid_roll(side, along, b),
    ensures
        s.frame(input, b, dt, side, along).wf(),
{
    if !s.game_over {
        let s1 = s.player_phase(input, b, dt);
        lemma_player_phase_wf(s, input, b, dt);
        let s2 = s1.laser_phase(b, dt);
        lemma_laser_phase_wf(s1, b, dt);
        let s3 = s2.enemy_phase(dt);
        lemma_enemy_phase_wf(s2, dt);
        let s4 = s3.spawn_phase(b, dt, side, along);
        lemma_spawn_phase_wf(s3, b, dt, side, along);
        lemma_collision_phase_wf(s4);
    }
}

/// No frame gives the player health.
pub proof fn lemma_health_never_rises(
    s: GameView,
    input: Input,
    b: Bounds,
    dt: int,
    side: int,
    along: int,
)
    requires
        s.wf(),
    ensures
        s.frame(input, b, dt, side, along).player.health <= s.player.health,
{
}

/// No frame takes from the score.
pub proof fn lemma_score_never_falls(
    s: GameView,
    input: Input,
    b: Bounds,
    dt: int,
    side: int,
    along: int,
)
    requires
        s.wf(),
    ensures
        s.frame(input, b, dt, side, along).score >= s.score,
{
}

} // verus!

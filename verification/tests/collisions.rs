use survival_game::collision::{
    add_hits, clear_shot, count_hits, count_touching, shot_by_any, strike, take_damage,
};
use survival_game::enemy::Enemy;
use survival_game::laser::Laser;
use survival_game::player::Player;
use survival_game::units::UNIT;

fn laser(x: i64, y: i64) -> Laser {
    Laser { x: x * UNIT, y: y * UNIT, dx: 1_000_000, dy: 0 }
}

fn foe(x: i64, y: i64) -> Enemy {
    Enemy { x: x * UNIT, y: y * UNIT, health: 1 }
}

#[test]
fn count_hits_counts_every_enemy_in_reach() {
    let enemies = vec![foe(100, 100), foe(110, 100), foe(200, 200), foe(100, 117)];
    assert_eq!(count_hits(&laser(100, 100), &enemies), 3);
    assert_eq!(count_hits(&laser(200, 200), &enemies), 1);
    assert_eq!(count_hits(&laser(300, 300), &enemies), 0);
    assert_eq!(count_hits(&laser(100, 100), &Vec::new()), 0);
}

#[test]
fn laser_reach_is_strict() {
    let l = laser(100, 100);
    assert_eq!(count_hits(&l, &vec![foe(118, 100)]), 0);
    assert_eq!(count_hits(&l, &vec![Enemy { x: 118 * UNIT - 1, y: 100 * UNIT, health: 1 }]), 1);
    assert_eq!(count_hits(&l, &vec![foe(100, 82)]), 0);
    assert_eq!(count_hits(&l, &vec![Enemy { x: 100 * UNIT, y: 82 * UNIT + 1, health: 1 }]), 1);
}

#[test]
fn shot_by_any_finds_a_laser_in_reach() {
    let lasers = vec![laser(0, 0), laser(500, 500), laser(100, 110)];
    assert!(shot_by_any(&foe(100, 100), &lasers));
    assert!(shot_by_any(&foe(510, 510), &lasers));
    assert!(!shot_by_any(&foe(300, 300), &lasers));
    assert!(!shot_by_any(&foe(0, 0), &Vec::new()));
}

#[test]
fn count_touching_counts_every_enemy_on_the_player() {
    let p = Player { x: 400 * UNIT, y: 300 * UNIT, health: 100 };
    let enemies = vec![foe(400, 300), foe(424, 300), foe(400, 276), foe(425, 300), foe(0, 0)];
    assert_eq!(count_touching(&p, &enemies), 3);
    assert_eq!(count_touching(&p, &Vec::new()), 0);
}

#[test]
fn touch_reach_is_strict() {
    let p = Player { x: 400 * UNIT, y: 300 * UNIT, health: 100 };
    assert_eq!(count_touching(&p, &vec![foe(415, 320)]), 0);
    assert_eq!(
        count_touching(&p, &vec![Enemy { x: 415 * UNIT, y: 320 * UNIT - 1, health: 1 }]),
        1
    );
}

#[test]
fn add_hits_scores_ten_for_each() {
    assert_eq!(add_hits(0, 0), 0);
    assert_eq!(add_hits(0, 1), 10);
    assert_eq!(add_hits(25, 3), 55);
    assert_eq!(add_hits(-5, 1), 5);
}

#[test]
fn add_hits_stops_at_the_largest_score() {
    assert_eq!(add_hits(i32::MAX - 10, 1), i32::MAX);
    assert_eq!(add_hits(i32::MAX - 9, 1), i32::MAX);
    assert_eq!(add_hits(i32::MAX, 5), i32::MAX);
    assert_eq!(add_hits(0, usize::MAX), i32::MAX);
    assert_eq!(add_hits(i32::MAX - 11, 1), i32::MAX - 1);
}

#[test]
fn take_damage_takes_one_for_each() {
    assert_eq!(take_damage(100, 0), 100);
    assert_eq!(take_damage(100, 3), 97);
    assert_eq!(take_damage(2, 5), -3);
}

#[test]
fn take_damage_stops_at_the_smallest_health() {
    assert_eq!(take_damage(i32::MIN + 1, 5), i32::MIN);
    assert_eq!(take_damage(i32::MIN, 0), i32::MIN);
    assert_eq!(take_damage(0, usize::MAX), i32::MIN);
}

#[test]
fn strike_removes_spent_lasers_and_scores_each_pair() {
    let lasers = vec![laser(100, 100), laser(300, 300), laser(105, 100), laser(500, 500)];
    let enemies = vec![foe(100, 100), foe(110, 100), foe(500, 510)];
    let (left, score) = strike(&lasers, &enemies, 7);
    assert_eq!(left, vec![laser(300, 300)]);
    assert_eq!(score, 7 + 50);
}

#[test]
fn strike_with_no_enemies_changes_nothing() {
    let lasers = vec![laser(100, 100), laser(300, 300)];
    let (left, score) = strike(&lasers, &Vec::new(), 40);
    assert_eq!(left, lasers);
    assert_eq!(score, 40);
}

#[test]
fn clear_shot_removes_each_hit_enemy_once() {
    let lasers = vec![laser(100, 100), laser(101, 100), laser(102, 100)];
    let enemies = vec![foe(0, 0), foe(100, 100), foe(200, 200), foe(110, 100), foe(300, 300)];
    let left = clear_shot(&enemies, &lasers);
    assert_eq!(left, vec![foe(0, 0), foe(200, 200), foe(300, 300)]);
}

#[test]
fn clear_shot_with_no_lasers_changes_nothing() {
    let enemies = vec![foe(0, 0), foe(100, 100)];
    assert_eq!(clear_shot(&enemies, &Vec::new()), enemies);
}

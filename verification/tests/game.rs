use survival_game::enemy::Enemy;
use survival_game::game::Game;
use survival_game::geometry::Point;
use survival_game::input::Input;
use survival_game::laser::Laser;
use survival_game::player::Player;
use survival_game::screen::Screen;
use survival_game::units::{UNIT, WORLD_LIMIT};

fn screen() -> Screen {
    Screen::new(800 * UNIT, 600 * UNIT).unwrap()
}

fn idle() -> Input {
    Input {
        up: false,
        down: false,
        left: false,
        right: false,
        fire: 0,
        pointer: Point { x: 0, y: 0 },
        restart: false,
    }
}

fn centre() -> Player {
    Player { x: 400 * UNIT, y: 300 * UNIT, health: 100 }
}

fn laser(x: i64, y: i64) -> Laser {
    Laser { x: x * UNIT, y: y * UNIT, dx: 1_000_000, dy: 0 }
}

fn foe(x: i64, y: i64) -> Enemy {
    Enemy { x: x * UNIT, y: y * UNIT, health: 1 }
}

fn on_an_edge(e: &Enemy) -> bool {
    let on_row = (e.y == -15 * UNIT || e.y == 615 * UNIT) && 0 <= e.x && e.x < 800 * UNIT;
    let on_column = (e.x == -15 * UNIT || e.x == 815 * UNIT) && 0 <= e.y && e.y < 600 * UNIT;
    e.health == 1 && (on_row || on_column)
}

#[test]
fn new_game_is_fresh() {
    let g = Game::new(&screen());
    assert_eq!(g.player(), centre());
    assert_eq!(g.health(), 100);
    assert_eq!(g.score(), 0);
    assert_eq!(g.spawn_timer(), 0);
    assert!(g.enemies().is_empty());
    assert!(g.lasers().is_empty());
    assert!(!g.is_over());
}

#[test]
fn new_game_centres_the_player_on_an_odd_screen() {
    let s = Screen::new(801 * UNIT + 1, 20 * UNIT).unwrap();
    let g = Game::new(&s);
    assert_eq!(g.player(), Player { x: 400_500_000_000_000, y: 10 * UNIT, health: 100 });
}

#[test]
fn from_parts_keeps_what_it_is_given() {
    let g = Game::from_parts(
        Player { x: 1 * UNIT, y: 2 * UNIT, health: 42 },
        vec![foe(10, 20)],
        vec![laser(30, 40)],
        70,
        123_456,
    )
    .unwrap();
    assert_eq!(g.player(), Player { x: 1 * UNIT, y: 2 * UNIT, health: 42 });
    assert_eq!(g.enemies(), &vec![foe(10, 20)]);
    assert_eq!(g.lasers(), &vec![laser(30, 40)]);
    assert_eq!(g.score(), 70);
    assert_eq!(g.spawn_timer(), 123_456);
    assert!(!g.is_over());
}

#[test]
fn from_parts_is_over_without_health() {
    let dead = Player { health: 0, ..centre() };
    assert!(Game::from_parts(dead, Vec::new(), Vec::new(), 0, 0).unwrap().is_over());
    let worse = Player { health: -3, ..centre() };
    assert!(Game::from_parts(worse, Vec::new(), Vec::new(), 0, 0).unwrap().is_over());
    let alive = Player { health: 1, ..centre() };
    assert!(!Game::from_parts(alive, Vec::new(), Vec::new(), 0, 0).unwrap().is_over());
}

#[test]
fn from_parts_rejects_what_no_game_can_hold() {
    let out = Player { x: -1, ..centre() };
    assert!(Game::from_parts(out, Vec::new(), Vec::new(), 0, 0).is_none());
    let lost = Enemy { x: WORLD_LIMIT + 1, y: 0, health: 1 };
    assert!(Game::from_parts(centre(), vec![lost], Vec::new(), 0, 0).is_none());
    let bent = Laser { x: 0, y: 0, dx: 1_000_001, dy: 0 };
    assert!(Game::from_parts(centre(), Vec::new(), vec![bent], 0, 0).is_none());
    assert!(Game::from_parts(centre(), Vec::new(), Vec::new(), 0, 2_000_001).is_none());
    assert!(Game::from_parts(centre(), Vec::new(), Vec::new(), 0, 2_000_000).is_some());
}

#[test]
fn update_without_movement_leaves_the_player_in_place() {
    let mut g = Game::new(&screen());
    for dt in [0, 1, 16_667, 1_000_000, 2_000_000] {
        let mut h = Game::new(&screen());
        h.update(&idle(), &screen(), dt);
        assert_eq!(h.player(), centre());
    }
    g.update(&Input { left: true, right: true, up: true, down: true, ..idle() }, &screen(), 500);
    assert_eq!(g.player(), centre());
}

#[test]
fn update_moves_the_player_at_its_speed() {
    let mut g = Game::new(&screen());
    g.update(&Input { right: true, ..idle() }, &screen(), 1_000_000);
    assert_eq!(g.player(), Player { x: 600 * UNIT, y: 300 * UNIT, health: 100 });
    g.update(&Input { up: true, ..idle() }, &screen(), 250_000);
    assert_eq!(g.player(), Player { x: 600 * UNIT, y: 250 * UNIT, health: 100 });
}

#[test]
fn update_moves_the_player_diagonally_no_faster() {
    let mut g = Game::new(&screen());
    g.update(&Input { down: true, right: true, ..idle() }, &screen(), 1_000_000);
    let p = g.player();
    assert_eq!(p.x - 400 * UNIT, 141_400_000_000_000);
    assert_eq!(p.y - 300 * UNIT, 141_400_000_000_000);
    let straight: i128 = 200 * UNIT as i128;
    let dx = (p.x - 400 * UNIT) as i128;
    let dy = (p.y - 300 * UNIT) as i128;
    assert!(dx * dx + dy * dy <= straight * straight);
    assert!(1000 * 1000 * (dx * dx + dy * dy) >= 999 * 999 * straight * straight);
}

#[test]
fn update_keeps_the_player_on_screen() {
    let s = screen();
    let mut g = Game::new(&s);
    for _ in 0..10 {
        g.update(&Input { right: true, down: true, ..idle() }, &s, 700_000);
        let p = g.player();
        assert!(10 * UNIT <= p.x && p.x <= 790 * UNIT);
        assert!(10 * UNIT <= p.y && p.y <= 590 * UNIT);
    }
    assert_eq!(g.player().x, 790 * UNIT);
    assert_eq!(g.player().y, 590 * UNIT);
    for _ in 0..10 {
        g.update(&Input { left: true, up: true, ..idle() }, &s, 900_000);
    }
    assert_eq!(g.player().x, 10 * UNIT);
    assert_eq!(g.player().y, 10 * UNIT);
}

#[test]
fn update_follows_a_screen_that_shrinks() {
    let mut g = Game::new(&screen());
    let small = Screen::new(200 * UNIT, 100 * UNIT).unwrap();
    g.update(&idle(), &small, 0);
    assert_eq!(g.player(), Player { x: 190 * UNIT, y: 90 * UNIT, health: 100 });
}

#[test]
fn fire_adds_a_laser_toward_the_pointer() {
    let mut g = Game::new(&screen());
    let aim = Input { fire: 1, pointer: Point { x: 700 * UNIT, y: 700 * UNIT }, ..idle() };
    g.update_player(&aim, &screen(), 0);
    assert_eq!(g.lasers(), &vec![Laser { x: 400 * UNIT, y: 300 * UNIT, dx: 600_000, dy: 800_000 }]);
    g.update_lasers(&screen(), 1_000);
    assert_eq!(
        g.lasers(),
        &vec![Laser {
            x: 400 * UNIT + 240_000_000_000,
            y: 300 * UNIT + 320_000_000_000,
            dx: 600_000,
            dy: 800_000,
        }]
    );
}

#[test]
fn fire_aims_from_where_the_player_has_moved_to() {
    let mut g = Game::new(&screen());
    let aim = Input {
        right: true,
        fire: 1,
        pointer: Point { x: 600 * UNIT, y: 100 * UNIT },
        ..idle()
    };
    g.update_player(&aim, &screen(), 1_000_000);
    assert_eq!(g.lasers(), &vec![Laser { x: 600 * UNIT, y: 300 * UNIT, dx: 0, dy: -1_000_000 }]);
}

#[test]
fn fire_with_the_pointer_on_the_player_goes_right() {
    let mut g = Game::new(&screen());
    let aim = Input { fire: 1, pointer: Point { x: 400 * UNIT, y: 300 * UNIT }, ..idle() };
    g.update_player(&aim, &screen(), 0);
    assert_eq!(g.lasers(), &vec![Laser { x: 400 * UNIT, y: 300 * UNIT, dx: 1_000_000, dy: 0 }]);
}

#[test]
fn every_fire_event_adds_a_laser() {
    let mut g = Game::from_parts(centre(), Vec::new(), vec![laser(5, 5)], 0, 0).unwrap();
    let aim = Input { fire: 3, pointer: Point { x: 400 * UNIT, y: 0 }, ..idle() };
    g.update_player(&aim, &screen(), 0);
    let shot = Laser { x: 400 * UNIT, y: 300 * UNIT, dx: 0, dy: -1_000_000 };
    assert_eq!(g.lasers(), &vec![laser(5, 5), shot, shot, shot]);
}

#[test]
fn no_fire_event_adds_no_laser() {
    let mut g = Game::new(&screen());
    g.update(&Input { pointer: Point { x: 1, y: 1 }, ..idle() }, &screen(), 16_667);
    assert!(g.lasers().is_empty());
}

#[test]
fn laser_flies_in_a_straight_line() {
    let start = Laser { x: 100 * UNIT, y: 500 * UNIT, dx: 600_000, dy: -800_000 };
    let mut g = Game::from_parts(centre(), Vec::new(), vec![start], 0, 0).unwrap();
    let mut t: i64 = 0;
    for dt in [10_000u32, 20_000, 30_000, 16_667, 1] {
        g.update(&idle(), &screen(), dt);
        t += dt as i64;
        assert_eq!(
            g.lasers(),
            &vec![Laser {
                x: 100 * UNIT + 600_000 * 400 * t,
                y: 500 * UNIT - 800_000 * 400 * t,
                dx: 600_000,
                dy: -800_000,
            }]
        );
    }
}

#[test]
fn laser_that_leaves_the_margin_is_gone_after_the_update() {
    let lasers = vec![laser(850, 300), laser(849, 300)];
    let mut g = Game::from_parts(centre(), Vec::new(), lasers, 0, 0).unwrap();
    g.update(&idle(), &screen(), 2_500);
    assert_eq!(g.lasers(), &vec![laser(850, 300)]);
    g.update(&idle(), &screen(), 2_500);
    assert!(g.lasers().is_empty());
}

#[test]
fn laser_on_the_edge_of_the_margin_stays() {
    let lasers = vec![laser(850, 300), laser(-50, 650), laser(400, -50)];
    let mut g = Game::from_parts(centre(), Vec::new(), lasers, 0, 0).unwrap();
    g.update_lasers(&screen(), 0);
    assert_eq!(g.lasers(), &vec![laser(850, 300), laser(-50, 650), laser(400, -50)]);
    let beyond = Laser { x: 850 * UNIT + 1, ..laser(850, 300) };
    let mut h = Game::from_parts(centre(), Vec::new(), vec![beyond], 0, 0).unwrap();
    h.update_lasers(&screen(), 0);
    assert!(h.lasers().is_empty());
}

#[test]
fn laser_outside_a_shrunken_screen_is_gone() {
    let mut g = Game::from_parts(centre(), Vec::new(), vec![laser(700, 500)], 0, 0).unwrap();
    let small = Screen::new(200 * UNIT, 100 * UNIT).unwrap();
    g.update_lasers(&small, 0);
    assert!(g.lasers().is_empty());
}

#[test]
fn enemies_walk_toward_the_player() {
    let enemies = vec![foe(700, 300), foe(400, 0), foe(100, -100)];
    let mut g = Game::from_parts(centre(), enemies, Vec::new(), 0, 0).unwrap();
    g.update(&idle(), &screen(), 1_000_000);
    assert_eq!(g.enemies(), &vec![foe(650, 300), foe(400, 50), foe(130, -60)]);
    assert_eq!(g.health(), 100);
}

#[test]
fn enemies_walk_toward_where_the_player_has_moved_to() {
    let mut g = Game::from_parts(centre(), vec![foe(600, 0)], Vec::new(), 0, 0).unwrap();
    g.update(&Input { right: true, ..idle() }, &screen(), 1_000_000);
    assert_eq!(g.player().x, 600 * UNIT);
    assert_eq!(g.enemies(), &vec![foe(600, 50)]);
}

#[test]
fn enemy_on_the_player_stays_and_hurts() {
    let mut g = Game::from_parts(centre(), vec![foe(400, 300)], Vec::new(), 0, 0).unwrap();
    g.update(&idle(), &screen(), 16_667);
    assert_eq!(g.enemies(), &vec![foe(400, 300)]);
    assert_eq!(g.health(), 99);
    g.update(&idle(), &screen(), 16_667);
    assert_eq!(g.health(), 98);
}

#[test]
fn spawner_fires_once_the_timer_passes_the_interval() {
    let s = screen();
    let mut g = Game::new(&s);
    g.update(&idle(), &s, 2_000_000);
    assert!(g.enemies().is_empty());
    assert_eq!(g.spawn_timer(), 2_000_000);
    g.update(&idle(), &s, 1);
    assert_eq!(g.enemies().len(), 1);
    assert_eq!(g.spawn_timer(), 0);
    assert!(on_an_edge(&g.enemies()[0]));
}

#[test]
fn spawner_adds_up_short_frames() {
    let s = screen();
    let mut g = Game::new(&s);
    for _ in 0..119 {
        g.update(&idle(), &s, 16_667);
    }
    assert!(g.enemies().is_empty());
    assert_eq!(g.spawn_timer(), 119 * 16_667);
    g.update(&idle(), &s, 16_667);
    assert_eq!(g.enemies().len(), 1);
    assert_eq!(g.spawn_timer(), 0);
}

#[test]
fn four_seconds_of_one_second_frames_spawn_once() {
    let s = screen();
    let mut g = Game::new(&s);
    let mut counts = Vec::new();
    for _ in 0..4 {
        g.spawn_enemies(&s, 1_000_000);
        counts.push(g.enemies().len());
    }
    assert_eq!(counts, vec![0, 0, 1, 1]);
    assert_eq!(g.spawn_timer(), 1_000_000);
}

#[test]
fn spawn_enemies_puts_each_enemy_on_an_edge() {
    let s = screen();
    let mut g = Game::new(&s);
    for n in 1..=300usize {
        g.spawn_enemies(&s, 2_000_001);
        assert_eq!(g.enemies().len(), n);
        assert_eq!(g.spawn_timer(), 0);
        assert!(on_an_edge(&g.enemies()[n - 1]));
    }
    let first = g.enemies()[0];
    assert!(g.enemies().iter().any(|e| *e != first));
}

#[test]
fn spawn_enemies_at_puts_the_enemy_where_the_roll_says() {
    let s = screen();
    let mut g = Game::from_parts(centre(), vec![foe(1, 1)], Vec::new(), 0, 1_500_000).unwrap();
    g.spawn_enemies_at(&s, 500_000, 2, 123 * UNIT);
    assert_eq!(g.enemies(), &vec![foe(1, 1)]);
    assert_eq!(g.spawn_timer(), 2_000_000);
    g.spawn_enemies_at(&s, 1, 2, 123 * UNIT);
    assert_eq!(g.enemies(), &vec![foe(1, 1), foe(123, 615)]);
    assert_eq!(g.spawn_timer(), 0);
    g.spawn_enemies_at(&s, 2_000_001, 0, 0);
    g.spawn_enemies_at(&s, 2_000_001, 1, 600 * UNIT - 1);
    g.spawn_enemies_at(&s, 2_000_001, 3, 7 * UNIT);
    assert_eq!(
        g.enemies(),
        &vec![
            foe(1, 1),
            foe(123, 615),
            foe(0, -15),
            Enemy { x: 815 * UNIT, y: 600 * UNIT - 1, health: 1 },
            foe(-15, 7),
        ]
    );
}

#[test]
fn spawn_enemies_spawns_at_most_one_in_a_frame() {
    let s = screen();
    let mut g = Game::new(&s);
    g.spawn_enemies(&s, u32::MAX);
    assert_eq!(g.enemies().len(), 1);
    assert_eq!(g.spawn_timer(), 0);
}

#[test]
fn laser_and_enemy_at_one_place_vanish_and_score_ten() {
    let mut g =
        Game::from_parts(centre(), vec![foe(100, 100)], vec![laser(100, 100)], 0, 0).unwrap();
    g.update(&idle(), &screen(), 0);
    assert!(g.enemies().is_empty());
    assert!(g.lasers().is_empty());
    assert_eq!(g.score(), 10);
    assert_eq!(g.health(), 100);
    assert!(!g.is_over());
}

#[test]
fn one_laser_on_two_enemies_removes_all_three() {
    let enemies = vec![foe(100, 100), foe(110, 100), foe(700, 100)];
    let mut g = Game::from_parts(centre(), enemies, vec![laser(105, 100)], 30, 0).unwrap();
    g.check_collisions();
    assert_eq!(g.enemies(), &vec![foe(700, 100)]);
    assert!(g.lasers().is_empty());
    assert_eq!(g.score(), 50);
}

#[test]
fn two_lasers_on_one_enemy_remove_it_once() {
    let enemies = vec![foe(100, 100), foe(700, 100), foe(700, 500)];
    let lasers = vec![laser(100, 100), laser(101, 100), laser(300, 500)];
    let mut g = Game::from_parts(centre(), enemies, lasers, 0, 0).unwrap();
    g.check_collisions();
    assert_eq!(g.enemies(), &vec![foe(700, 100), foe(700, 500)]);
    assert_eq!(g.lasers(), &vec![laser(300, 500)]);
    assert_eq!(g.score(), 20);
}

#[test]
fn collisions_leave_distant_pairs_alone() {
    let mut g =
        Game::from_parts(centre(), vec![foe(100, 100)], vec![laser(118, 100)], 0, 0).unwrap();
    g.check_collisions();
    assert_eq!(g.enemies(), &vec![foe(100, 100)]);
    assert_eq!(g.lasers(), &vec![laser(118, 100)]);
    assert_eq!(g.score(), 0);
}

#[test]
fn score_stops_at_its_limit() {
    let mut g = Game::from_parts(
        centre(),
        vec![foe(100, 100)],
        vec![laser(100, 100)],
        i32::MAX - 5,
        0,
    )
    .unwrap();
    g.check_collisions();
    assert_eq!(g.score(), i32::MAX);
}

#[test]
fn three_enemies_on_the_player_cost_three_health() {
    let enemies = vec![foe(400, 300), foe(410, 310), foe(390, 290), foe(100, 100)];
    let mut g = Game::from_parts(centre(), enemies, Vec::new(), 0, 0).unwrap();
    g.check_collisions();
    assert_eq!(g.health(), 97);
    assert_eq!(g.enemies().len(), 4);
    g.update(&idle(), &screen(), 0);
    assert_eq!(g.health(), 94);
}

#[test]
fn enemy_shot_on_the_player_does_not_hurt() {
    let mut g =
        Game::from_parts(centre(), vec![foe(400, 300)], vec![laser(400, 300)], 0, 0).unwrap();
    g.check_collisions();
    assert_eq!(g.health(), 100);
    assert_eq!(g.score(), 10);
    assert!(g.enemies().is_empty());
}

#[test]
fn enemy_just_out_of_touch_does_not_hurt() {
    let mut g = Game::from_parts(centre(), vec![foe(425, 300)], Vec::new(), 0, 0).unwrap();
    g.check_collisions();
    assert_eq!(g.health(), 100);
}

#[test]
fn game_ends_when_health_runs_out() {
    let weak = Player { health: 2, ..centre() };
    let enemies = vec![foe(400, 300), foe(401, 300), foe(402, 300)];
    let mut g = Game::from_parts(weak, enemies, Vec::new(), 0, 0).unwrap();
    assert!(!g.is_over());
    g.update(&idle(), &screen(), 0);
    assert_eq!(g.health(), -1);
    assert!(g.is_over());
}

#[test]
fn game_goes_on_with_one_health_left() {
    let weak = Player { health: 2, ..centre() };
    let mut g = Game::from_parts(weak, vec![foe(400, 300)], Vec::new(), 0, 0).unwrap();
    g.update(&idle(), &screen(), 0);
    assert_eq!(g.health(), 1);
    assert!(!g.is_over());
    g.update(&idle(), &screen(), 0);
    assert_eq!(g.health(), 0);
    assert!(g.is_over());
}

#[test]
fn game_that_is_over_is_frozen() {
    let weak = Player { health: 1, ..centre() };
    let enemies = vec![foe(400, 300), foe(100, 100)];
    let lasers = vec![laser(600, 500)];
    let mut g = Game::from_parts(weak, enemies, lasers, 40, 1_000_000).unwrap();
    g.update(&idle(), &screen(), 0);
    assert!(g.is_over());
    let busy = Input {
        right: true,
        down: true,
        fire: 2,
        pointer: Point { x: 0, y: 0 },
        ..idle()
    };
    for dt in [0, 16_667, 3_000_000] {
        g.update(&busy, &screen(), dt);
        assert!(g.is_over());
        assert_eq!(g.player(), Player { health: 0, ..centre() });
        assert_eq!(g.enemies(), &vec![foe(400, 300), foe(100, 100)]);
        assert_eq!(g.lasers(), &vec![laser(600, 500)]);
        assert_eq!(g.score(), 40);
        assert_eq!(g.spawn_timer(), 1_000_000);
    }
}

#[test]
fn tick_without_a_restart_leaves_a_finished_game_alone() {
    let dead = Player { health: 0, ..centre() };
    let mut g = Game::from_parts(dead, vec![foe(1, 1)], vec![laser(2, 2)], 90, 5).unwrap();
    g.tick(&Input { right: true, ..idle() }, &screen(), 16_667);
    assert!(g.is_over());
    assert_eq!(g.player(), dead);
    assert_eq!(g.enemies(), &vec![foe(1, 1)]);
    assert_eq!(g.lasers(), &vec![laser(2, 2)]);
    assert_eq!(g.score(), 90);
}

#[test]
fn tick_with_a_restart_begins_anew() {
    let dead = Player { x: 20 * UNIT, y: 30 * UNIT, health: -2 };
    let mut g = Game::from_parts(dead, vec![foe(1, 1)], vec![laser(2, 2)], 90, 5).unwrap();
    g.tick(&Input { restart: true, ..idle() }, &screen(), 0);
    assert!(!g.is_over());
    assert_eq!(g.player(), centre());
    assert!(g.enemies().is_empty());
    assert!(g.lasers().is_empty());
    assert_eq!(g.score(), 0);
    assert_eq!(g.spawn_timer(), 0);
}

#[test]
fn tick_ignores_a_restart_while_the_game_is_on() {
    let mut g = Game::from_parts(centre(), vec![foe(100, 100)], Vec::new(), 90, 5).unwrap();
    g.tick(&Input { restart: true, ..idle() }, &screen(), 0);
    assert_eq!(g.score(), 90);
    assert_eq!(g.enemies(), &vec![foe(100, 100)]);
    assert_eq!(g.spawn_timer(), 5);
}

#[test]
fn restart_is_a_fresh_game_on_the_current_screen() {
    let dead = Player { health: 0, ..centre() };
    let mut g = Game::from_parts(dead, vec![foe(1, 1)], Vec::new(), 10, 0).unwrap();
    let wide = Screen::new(1000 * UNIT, 400 * UNIT).unwrap();
    g.restart(false, &wide);
    assert!(g.is_over());
    g.restart(true, &wide);
    assert!(!g.is_over());
    assert_eq!(g.player(), Player { x: 500 * UNIT, y: 200 * UNIT, health: 100 });
    assert_eq!(g.score(), 0);
    assert!(g.enemies().is_empty());
}

#[test]
fn a_whole_frame_runs_its_steps_in_order() {
    let enemies = vec![foe(712, 300), foe(400, 325)];
    let lasers = vec![Laser { x: 500 * UNIT, y: 300 * UNIT, dx: 1_000_000, dy: 0 }];
    let mut g = Game::from_parts(centre(), enemies, lasers, 0, 0).unwrap();
    let input = Input { fire: 1, pointer: Point { x: 400 * UNIT, y: 0 }, ..idle() };
    g.update(&input, &screen(), 500_000);
    assert_eq!(g.player(), Player { health: 99, ..centre() });
    assert_eq!(g.lasers(), &vec![Laser { x: 400 * UNIT, y: 100 * UNIT, dx: 0, dy: -1_000_000 }]);
    assert_eq!(g.enemies(), &vec![foe(400, 300)]);
    assert_eq!(g.score(), 10);
    assert_eq!(g.spawn_timer(), 500_000);
    assert!(!g.is_over());
}

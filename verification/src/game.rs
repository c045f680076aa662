//! The simulation: one player, the enemies and lasers around it, and the
//! frame that advances them.

use vstd::prelude::*;
use crate::collision::{
    clear_shot, count_touching, health_after, pair_count, score_after, strike, surviving_enemies,
    surviving_lasers, take_damage, touch_count,
};
use crate::enemy::{self, all_enemies_wf, chase_all, chase_each, Enemy, EnemyView};
use crate::geometry::{views_of, Point};
use crate::input::Input;
use crate::laser::{self, advance_and_cull, all_lasers_wf, lasers_after, Laser, LaserView};
use crate::player::{Player, PlayerView};
use crate::screen::{Bounds, Screen};
use crate::spawner::{
    advance_timer, random_roll, spawn_at, spawn_due, spawn_point, timer_after, valid_roll,
};
use crate::units::{SPAWN_INTERVAL, START_HEALTH};

verus! {

/// The whole state of a game.
pub struct Game {
    player: Player,
    enemies: Vec<Enemy>,
    lasers: Vec<Laser>,
    score: i32,
    enemy_spawn_timer: u32,
    game_over: bool,
}

/// The mathematical state that a `Game` stands for.
pub struct GameView {
    pub player: PlayerView,
    pub enemies: Seq<EnemyView>,
    pub lasers: Seq<LaserView>,
    pub score: int,
    /// Microseconds since the last spawn, or since the start.
    pub timer: int,
    pub game_over: bool,
}

/// `n` copies of one beam.
pub open spec fn volley(shot: LaserView, n: nat) -> Seq<LaserView> {
    Seq::new(n, |i: int| shot)
}

impl GameView {
    /// Whether the state is one that a game can be in.
    pub open spec fn wf(self) -> bool {
        &&& self.player.wf()
        &&& all_enemies_wf(self.enemies)
        &&& all_lasers_wf(self.lasers)
        &&& i32::MIN <= self.score <= i32::MAX
        &&& 0 <= self.timer <= SPAWN_INTERVAL
        &&& self.game_over ==> self.player.health <= 0
    }

    /// A game that has just begun: the player in the middle of the screen
    /// with full health, nothing else on it, no score, the timer at zero.
    pub open spec fn fresh(b: Bounds) -> GameView {
        GameView {
            player: PlayerView { x: b.width / 2, y: b.height / 2, health: START_HEALTH as int },
            enemies: Seq::empty(),
            lasers: Seq::empty(),
            score: 0,
            timer: 0,
            game_over: false,
        }
    }

    /// The state after the player has steered and fired: the player moves
    /// and is held inside the screen, then every fire event adds one beam
    /// from where the player now is toward the pointer.
    pub open spec fn player_phase(self, input: Input, b: Bounds, dt: int) -> GameView {
        let player = self.player.moved(input.heading(), b, dt);
        GameView {
            player,
            lasers: self.lasers + volley(player.shot(input.pointer@), input.fire as nat),
            ..self
        }
    }

    /// The state after the lasers have flown and those off screen are gone.
    pub open spec fn laser_phase(self, b: Bounds, dt: int) -> GameView {
        GameView { lasers: lasers_after(self.lasers, b, dt), ..self }
    }

    /// The state after the enemies have walked toward the player.
    pub open spec fn enemy_phase(self, dt: int) -> GameView {
        GameView { enemies: chase_all(self.enemies, self.player.pos(), dt), ..self }
    }

    /// The state after the spawner has run: where a spawn is due the timer
    /// starts over and the enemy of the roll `side`, `along` joins the
    /// others; else the timer runs on.
    pub open spec fn spawn_phase(self, b: Bounds, dt: int, side: int, along: int) -> GameView {
        GameView {
            timer: timer_after(self.timer, dt),
            enemies: if spawn_due(self.timer, dt) {
                self.enemies.push(spawn_at(side, along, b))
            } else {
                self.enemies
            },
            ..self
        }
    }

    /// The state after collisions. Every laser that hits an enemy and every
    /// enemy that a laser hits is gone, each pair of them scores, and then
    /// every enemy that is left and touches the player takes one point of
    /// health.
    pub open spec fn collision_phase(self) -> GameView {
        let enemies = surviving_enemies(self.enemies, self.lasers);
        GameView {
            player: PlayerView {
                health: health_after(self.player.health, touch_count(self.player.pos(), enemies)),
                ..self.player
            },
            enemies,
            lasers: surviving_lasers(self.lasers, self.enemies),
            score: score_after(self.score, pair_count(self.lasers, self.enemies)),
            ..self
        }
    }

    /// The state after the check for the end: the game is over once the
    /// player has no health left.
    pub open spec fn settled(self) -> GameView {
        GameView { game_over: self.game_over || self.player.health <= 0, ..self }
    }

    /// The state after one frame of `dt` microseconds. A game that is over
    /// stays as it is. The roll `side`, `along` says where an enemy appears
    /// if one is due.
    pub open spec fn frame(self, input: Input, b: Bounds, dt: int, side: int, along: int)
        -> GameView {
        if self.game_over {
            self
        } else {
            self.player_phase(input, b, dt).laser_phase(b, dt).enemy_phase(dt).spawn_phase(
                b,
                dt,
                side,
                along,
            ).collision_phase().settled()
        }
    }

    /// The state after a request to restart: a game that is over begins
    /// anew where `asked` holds; any other game goes on.
    pub open spec fn restarted(self, asked: bool, b: Bounds) -> GameView {
        if self.game_over && asked {
            GameView::fresh(b)
        } else {
            self
        }
    }
}

impl View for Game {
    type V = GameView;

    closed spec fn view(&self) -> GameView {
        GameView {
            player: self.player@,
            enemies: views_of(self.enemies@),
            lasers: views_of(self.lasers@),
            score: self.score as int,
            timer: self.enemy_spawn_timer as int,
            game_over: self.game_over,
        }
    }
}

impl Game {
    /// Every game is in a well-formed state.
    #[verifier::type_invariant]
    pub closed spec fn inv(self) -> bool {
        self@.wf()
    }

    /// A game that has just begun on the given screen.
    pub fn new(screen: &Screen) -> (g: Game)
        ensures
            g@ == GameView::fresh(screen@),
            g@.wf(),
    {
        let g = Game {
            player: Player { x: screen.width() / 2, y: screen.height() / 2, health: START_HEALTH },
            enemies: Vec::new(),
            lasers: Vec::new(),
            score: 0,
            enemy_spawn_timer: 0,
            game_over: false,
        };
        assert(g@.enemies =~= Seq::empty());
        assert(g@.lasers =~= Seq::empty());
        g
    }

    /// A game put together from its parts, or `None` where the parts are
    /// not a state that a game can be in. The game is over exactly if the
    /// player has no health left.
    pub fn from_parts(
        player: Player,
        enemies: Vec<Enemy>,
        lasers: Vec<Laser>,
        score: i32,
        timer: u32,
    ) -> (r: Option<Game>)
        ensures
            r.is_some() <==> (GameView {
                player: player@,
                enemies: views_of(enemies@),
                lasers: views_of(lasers@),
                score: score as int,
                timer: timer as int,
                game_over: player.health <= 0,
            }).wf(),
            r matches Some(g) ==> g@ == (GameView {
                player: player@,
                enemies: views_of(enemies@),
                lasers: views_of(lasers@),
                score: score as int,
                timer: timer as int,
                game_over: player.health <= 0,
            }),
    {
        if player.is_valid() && enemy::all_valid(&enemies) && laser::all_valid(&lasers) && timer
            <= SPAWN_INTERVAL {
            Some(
                Game {
                    player,
                    enemies,
                    lasers,
                    score,
                    enemy_spawn_timer: timer,
                    game_over: player.health <= 0,
                },
            )
        } else {
            None
        }
    }

    /// The player.
    pub fn player(&self) -> (r: Player)
        ensures
            r@ == self@.player,
    {
        self.player
    }

    /// The enemies, oldest first.
    pub fn enemies(&self) -> (r: &Vec<Enemy>)
        ensures
            views_of(r@) == self@.enemies,
    {
        &self.enemies
    }

    /// The lasers, oldest first.
    pub fn lasers(&self) -> (r: &Vec<Laser>)
        ensures
            views_of(r@) == self@.lasers,
    {
        &self.lasers
    }

    /// The health of the player.
    pub fn health(&self) -> (r: i32)
        ensures
            r == self@.player.health,
    {
        self.player.health
    }

    /// The score.
    pub fn score(&self) -> (r: i32)
        ensures
            r == self@.score,
    {
        self.score
    }

    /// Microseconds since the last spawn, or since the start.
    pub fn spawn_timer(&self) -> (r: u32)
        ensures
            r == self@.timer,
    {
        self.enemy_spawn_timer
    }

    /// Whether the game is over.
    pub fn is_over(&self) -> (r: bool)
        ensures
            r == self@.game_over,
    {
        self.game_over
    }

    /// Begins the game anew if it is over and a restart was asked for.
    pub fn restart(&mut self, asked: bool, screen: &Screen)
        ensures
            final(self)@ == old(self)@.restarted(asked, screen@),
            final(self)@.wf(),
    {
        proof {
            use_type_invariant(&*self);
        }
        if self.game_over && asked {
            *self = Game::new(screen);
        }
    }

    /// One turn of the frame loop: a restart where one was asked for and the
    /// game is over, then the frame itself.
    pub fn tick(&mut self, input: &Input, screen: &Screen, dt: u32)
        ensures
            exists|side: int, along: int| #[trigger]
                valid_roll(side, along, screen@) && final(self)@ == old(self)@.restarted(
                    input.restart,
                    screen@,
                ).frame(*input, screen@, dt as int, side, along),
            old(self)@.restarted(input.restart, screen@).game_over || !spawn_due(
                old(self)@.restarted(input.restart, screen@).timer,
                dt as int,
            ) ==> final(self)@ == old(self)@.restarted(input.restart, screen@).frame(
                *input,
                screen@,
                dt as int,
                0,
                0,
            ),
            final(self)@.game_over <==> final(self)@.player.health <= 0,
            final(self)@.wf(),
    {
        self.restart(input.restart, screen);
        self.update(input, screen, dt);
    }

    /// Advances the game by one frame of `dt` microseconds.
    ///
    /// A game that is over stays as it is. Otherwise the player steers and
    /// fires, the lasers fly, the enemies walk, the spawner runs, collisions
    /// are resolved and the game ends if the player has no health left. Where
    /// an enemy appears is left to the random generator; everything else is
    /// fixed by the arguments.
    pub fn update(&mut self, input: &Input, screen: &Screen, dt: u32)
        ensures
            exists|side: int, along: int| #[trigger]
                valid_roll(side, along, screen@) && final(self)@ == old(self)@.frame(
                    *input,
                    screen@,
                    dt as int,
                    side,
                    along,
                ),
            old(self)@.game_over || !spawn_due(old(self)@.timer, dt as int) ==> final(self)@
                == old(self)@.frame(*input, screen@, dt as int, 0, 0),
            old(self)@.game_over ==> final(self)@ == old(self)@,
            !old(self)@.game_over ==> final(self)@.player.in_bounds(screen@),
            final(self)@.game_over <==> final(self)@.player.health <= 0,
            final(self)@.wf(),
    {
        proof {
            use_type_invariant(&*self);
            use_type_invariant(screen);
            assert(valid_roll(0, 0, screen@));
        }
        if self.game_over {
            return ;
        }
        self.update_player(input, screen, dt);
        self.update_lasers(screen, dt);
        self.update_enemies(dt);
        let ghost before = self@;
        self.spawn_enemies(screen, dt);
        let ghost (side, along) = choose|side: int, along: int| #[trigger]
            valid_roll(side, along, screen@) && self@ == before.spawn_phase(
                screen@,
                dt as int,
                side,
                along,
            );
        self.check_collisions();
        proof {
            use_type_invariant(&*self);
        }
        if self.player.health <= 0 {
            self.game_over = true;
        }
        proof {
            assert(self@ == old(self)@.frame(*input, screen@, dt as int, side, along));
        }
    }

    /// Steers the player and fires its shots.
    pub fn update_player(&mut self, input: &Input, screen: &Screen, dt: u32)
        ensures
            final(self)@ == old(self)@.player_phase(*input, screen@, dt as int),
            final(self)@.player.in_bounds(screen@),
            final(self)@.wf(),
    {
        proof {
            use_type_invariant(&*self);
        }
        let player = self.player.steer(input, screen, dt);
        self.player = player;
        if input.fire > 0 {
            let shot = player.shoot(input.pointer);
            let mut lasers: Vec<Laser> = Vec::new();
            core::mem::swap(&mut lasers, &mut self.lasers);
            let ghost held = views_of(lasers@);
            let mut k: u32 = 0;
            assert(views_of(lasers@) =~= held + volley(shot@, 0));
            while k < input.fire
                invariant
                    k <= input.fire,
                    shot@.wf(),
                    all_lasers_wf(held),
                    views_of(lasers@) == held + volley(shot@, k as nat),
                decreases input.fire - k,
            {
                let ghost so_far = views_of(lasers@);
                lasers.push(shot);
                k += 1;
                assert(views_of(lasers@) =~= so_far.push(shot@));
                assert(so_far.push(shot@) =~= held + volley(shot@, k as nat));
            }
            self.lasers = lasers;
        } else {
            assert(self@.lasers =~= self@.lasers + volley(
                player@.shot(input.pointer@),
                0,
            ));
        }
    }

    /// Lets the lasers fly and drops those that have left the screen.
    pub fn update_lasers(&mut self, screen: &Screen, dt: u32)
        ensures
            final(self)@ == old(self)@.laser_phase(screen@, dt as int),
            final(self)@.wf(),
    {
        proof {
            use_type_invariant(&*self);
        }
        let lasers = advance_and_cull(&self.lasers, screen, dt);
        self.lasers = lasers;
    }

    /// Lets the enemies walk toward the player.
    pub fn update_enemies(&mut self, dt: u32)
        ensures
            final(self)@ == old(self)@.enemy_phase(dt as int),
            final(self)@.wf(),
    {
        proof {
            use_type_invariant(&*self);
        }
        let target = Point { x: self.player.x, y: self.player.y };
        let mut enemies: Vec<Enemy> = Vec::new();
        core::mem::swap(&mut enemies, &mut self.enemies);
        chase_each(&mut enemies, target, dt);
        self.enemies = enemies;
    }

    /// Runs the spawner for a frame of `dt` microseconds. Where a spawn is
    /// due, one enemy appears at a random point of a random edge.
    pub fn spawn_enemies(&mut self, screen: &Screen, dt: u32)
        ensures
            exists|side: int, along: int| #[trigger]
                valid_roll(side, along, screen@) && final(self)@ == old(self)@.spawn_phase(
                    screen@,
                    dt as int,
                    side,
                    along,
                ),
            final(self)@.timer == timer_after(old(self)@.timer, dt as int),
            final(self)@.enemies.len() == old(self)@.enemies.len() + if spawn_due(
                old(self)@.timer,
                dt as int,
            ) {
                1int
            } else {
                0int
            },
            final(self)@.wf(),
    {
        proof {
            use_type_invariant(screen);
            assert(valid_roll(0, 0, screen@));
        }
        let (_, due) = advance_timer(self.enemy_spawn_timer, dt);
        let (side, along) = if due {
            random_roll(screen)
        } else {
            (0, 0)
        };
        self.spawn_enemies_at(screen, dt, side, along);
        assert(valid_roll(side as int, along as int, screen@) && self@ == old(self)@.spawn_phase(
            screen@,
            dt as int,
            side as int,
            along as int,
        ));
    }

    /// Runs the spawner for a frame of `dt` microseconds with a given roll.
    /// Where a spawn is due, one enemy appears `along` the edge with the
    /// number `side`.
    pub fn spawn_enemies_at(&mut self, screen: &Screen, dt: u32, side: i64, along: i64)
        requires
            valid_roll(side as int, along as int, screen@),
        ensures
            final(self)@ == old(self)@.spawn_phase(
                screen@,
                dt as int,
                side as int,
                along as int,
            ),
            final(self)@.wf(),
    {
        proof {
            use_type_invariant(&*self);
            use_type_invariant(screen);
        }
        let (timer, due) = advance_timer(self.enemy_spawn_timer, dt);
        self.enemy_spawn_timer = timer;
        if due {
            self.place_enemy(spawn_point(side, along, screen));
        }
    }

    /// Adds an enemy behind the others.
    fn place_enemy(&mut self, enemy: Enemy)
        requires
            enemy@.wf(),
        ensures
            final(self)@ == (GameView {
                enemies: old(self)@.enemies.push(enemy@),
                ..old(self)@
            }),
            final(self)@.wf(),
    {
        proof {
            use_type_invariant(&*self);
        }
        let mut enemies: Vec<Enemy> = Vec::new();
        core::mem::swap(&mut enemies, &mut self.enemies);
        let ghost held = views_of(enemies@);
        enemies.push(enemy);
        assert(views_of(enemies@) =~= held.push(enemy@));
        self.enemies = enemies;
    }

    /// Resolves the collisions of one frame.
    pub fn check_collisions(&mut self)
        ensures
            final(self)@ == old(self)@.collision_phase(),
            final(self)@.wf(),
    {
        proof {
            use_type_invariant(&*self);
        }
        let (lasers, score) = strike(&self.lasers, &self.enemies, self.score);
        let enemies = clear_shot(&self.enemies, &self.lasers);
        let touching = count_touching(&self.player, &enemies);
        let health = take_damage(self.player.health, touching);
        self.score = score;
        self.lasers = lasers;
        self.enemies = enemies;
        self.player = Player { health, ..self.player };
    }
}

} // verus!

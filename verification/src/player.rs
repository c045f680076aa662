//! The player: steering inside the screen, and firing at the pointer.

use vstd::prelude::*;
use crate::geometry::{clamp, clamped, unit_toward, unit_vector, Point, Pos};
use crate::input::Input;
use crate::laser::{Laser, LaserView};
use crate::screen::{Bounds, Screen};
use crate::units::{in_world, MAX_SCREEN, MICRO, PLAYER_HALF, PLAYER_SPEED};

verus! {

/// The player: where the centre of its square is, and its health.
#[derive(Clone, Copy, Debug, PartialEq, Eq)]
pub struct Player {
    pub x: i64,
    pub y: i64,
    pub health: i32,
}

/// The mathematical player that a `Player` stands for.
pub struct PlayerView {
    pub x: int,
    pub y: int,
    pub health: int,
}

impl View for Player {
    type V = PlayerView;

    open spec fn view(&self) -> PlayerView {
        PlayerView { x: self.x as int, y: self.y as int, health: self.health as int }
    }
}

impl PlayerView {
    /// Where the player is.
    pub open spec fn pos(self) -> Pos {
        Pos { x: self.x, y: self.y }
    }

    /// Whether the player lies where some screen could hold it.
    pub open spec fn wf(self) -> bool {
        &&& 0 <= self.x <= MAX_SCREEN
        &&& 0 <= self.y <= MAX_SCREEN
        &&& i32::MIN <= self.health <= i32::MAX
    }

    /// Whether the whole square of the player is inside the screen.
    pub open spec fn in_bounds(self, b: Bounds) -> bool {
        &&& PLAYER_HALF <= self.x <= b.width - PLAYER_HALF
        &&& PLAYER_HALF <= self.y <= b.height - PLAYER_HALF
    }

    /// The player after steering along `heading` for `dt` microseconds and
    /// being held inside the screen.
    pub open spec fn moved(self, heading: (int, int), b: Bounds, dt: int) -> PlayerView {
        PlayerView {
            x: clamped(
                self.x + heading.0 * PLAYER_SPEED * dt,
                PLAYER_HALF as int,
                b.width - PLAYER_HALF,
            ),
            y: clamped(
                self.y + heading.1 * PLAYER_SPEED * dt,
                PLAYER_HALF as int,
                b.height - PLAYER_HALF,
            ),
            health: self.health,
        }
    }

    /// The direction of a shot at `pointer`; a pointer on the player itself
    /// shoots along the positive x axis.
    pub open spec fn aim(self, pointer: Pos) -> (int, int) {
        match unit_toward(self.pos(), pointer) {
            Some(u) => u,
            None => (MICRO as int, 0int),
        }
    }

    /// The beam that a shot at `pointer` creates.
    pub open spec fn shot(self, pointer: Pos) -> LaserView {
        LaserView { x: self.x, y: self.y, dx: self.aim(pointer).0, dy: self.aim(pointer).1 }
    }
}

/// How far one coordinate moves in `dt` microseconds along a heading
/// component `h`.
fn step(h: i64, dt: u32) -> (r: i64)
    requires
        -1_000_000 <= h <= 1_000_000,
    ensures
        r == h * PLAYER_SPEED * dt,
        -1_000_000 * 200 * 0xffff_ffff <= r <= 1_000_000 * 200 * 0xffff_ffff,
{
    let t: i64 = dt as i64;
    assert(-1_000_000 * 200 * 0xffff_ffff <= h * PLAYER_SPEED * t <= 1_000_000 * 200 * 0xffff_ffff)
        by (nonlinear_arith)
        requires
            -1_000_000 <= h <= 1_000_000,
            PLAYER_SPEED == 200,
            0 <= t <= 0xffff_ffff,
    ;
    h * PLAYER_SPEED * t
}

impl Player {
    /// Whether the player lies where some screen could hold it.
    pub fn is_valid(&self) -> (r: bool)
        ensures
            r == self@.wf(),
    {
        0 <= self.x && self.x <= MAX_SCREEN && 0 <= self.y && self.y <= MAX_SCREEN
    }

    /// The player after steering as `input` asks for `dt` microseconds and
    /// being held inside the screen.
    pub fn steer(&self, input: &Input, screen: &Screen, dt: u32) -> (r: Player)
        requires
            self@.wf(),
        ensures
            r@ == self@.moved(input.heading(), screen@, dt as int),
            r@.in_bounds(screen@),
            r@.wf(),
    {
        let (hx, hy) = input.direction();
        let w = screen.width();
        let h = screen.height();
        Player {
            x: clamp(self.x + step(hx, dt), PLAYER_HALF, w - PLAYER_HALF),
            y: clamp(self.y + step(hy, dt), PLAYER_HALF, h - PLAYER_HALF),
            health: self.health,
        }
    }

    /// The beam that a shot at `pointer` creates.
    pub fn shoot(&self, pointer: Point) -> (r: Laser)
        requires
            in_world(self.x as int),
            in_world(self.y as int),
        ensures
            r@ == self@.shot(pointer@),
            r@.wf(),
    {
        let here = Point { x: self.x, y: self.y };
        let (dx, dy) = match unit_vector(here, pointer) {
            Some(u) => u,
            None => (MICRO, 0),
        };
        Laser { x: self.x, y: self.y, dx, dy }
    }
}

} // verus!

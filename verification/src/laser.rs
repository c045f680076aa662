//! Laser beams: straight flight and removal once off screen.

use vstd::prelude::*;
use crate::geometry::{views_of, Point, Pos};
use crate::screen::{Bounds, Screen};
use crate::units::{in_world, CULL_MARGIN, LASER_LENGTH, LASER_SPEED, MICRO, WORLD_LIMIT};

verus! {

/// A laser beam: where its tail is, and the direction it flies in, in
/// millionths.
#[derive(Clone, Copy, Debug, PartialEq, Eq)]
pub struct Laser {
    pub x: i64,
    pub y: i64,
    pub dx: i64,
    pub dy: i64,
}

/// The mathematical beam that a `Laser` stands for.
pub struct LaserView {
    pub x: int,
    pub y: int,
    pub dx: int,
    pub dy: int,
}

impl View for Laser {
    type V = LaserView;

    open spec fn view(&self) -> LaserView {
        LaserView { x: self.x as int, y: self.y as int, dx: self.dx as int, dy: self.dy as int }
    }
}

impl LaserView {
    /// Where the beam is.
    pub open spec fn pos(self) -> Pos {
        Pos { x: self.x, y: self.y }
    }

    /// Whether the beam lies in the world and no component of its direction
    /// is longer than a unit.
    pub open spec fn wf(self) -> bool {
        &&& in_world(self.x)
        &&& in_world(self.y)
        &&& -MICRO <= self.dx <= MICRO
        &&& -MICRO <= self.dy <= MICRO
    }

    /// The beam after flying for `dt` microseconds.
    pub open spec fn advanced(self, dt: int) -> LaserView {
        LaserView {
            x: self.x + self.dx * LASER_SPEED * dt,
            y: self.y + self.dy * LASER_SPEED * dt,
            dx: self.dx,
            dy: self.dy,
        }
    }

    /// Whether the beam is inside the screen widened by the cull margin on
    /// every side, or on the edge of it.
    pub open spec fn on_screen(self, b: Bounds) -> bool {
        &&& -CULL_MARGIN <= self.x <= b.width + CULL_MARGIN
        &&& -CULL_MARGIN <= self.y <= b.height + CULL_MARGIN
    }

    /// Where the head of the beam is drawn.
    pub open spec fn tip(self) -> Pos {
        Pos {
            x: self.x + self.dx * (LASER_LENGTH / MICRO),
            y: self.y + self.dy * (LASER_LENGTH / MICRO),
        }
    }
}

/// Whether every beam of a sequence is well formed.
pub open spec fn all_lasers_wf(ls: Seq<LaserView>) -> bool {
    forall|i: int| 0 <= i < ls.len() ==> (#[trigger] ls[i]).wf()
}

/// Every beam after flying for `dt` microseconds.
pub open spec fn advance_all(ls: Seq<LaserView>, dt: int) -> Seq<LaserView> {
    Seq::new(ls.len(), |i: int| ls[i].advanced(dt))
}

/// The beams that have not left the widened screen, in their order.
pub open spec fn culled(ls: Seq<LaserView>, b: Bounds) -> Seq<LaserView> {
    ls.filter(|l: LaserView| l.on_screen(b))
}

/// The beams after one frame: all fly, then those outside the widened
/// screen are dropped.
pub open spec fn lasers_after(ls: Seq<LaserView>, b: Bounds, dt: int) -> Seq<LaserView> {
    culled(advance_all(ls, dt), b)
}

impl Laser {
    /// Whether the beam lies in the world and no component of its direction
    /// is longer than a unit.
    pub fn is_valid(&self) -> (r: bool)
        ensures
            r == self@.wf(),
    {
        -WORLD_LIMIT <= self.x && self.x <= WORLD_LIMIT && -WORLD_LIMIT <= self.y && self.y
            <= WORLD_LIMIT && -MICRO <= self.dx && self.dx <= MICRO && -MICRO <= self.dy
            && self.dy <= MICRO
    }

    /// The beam after flying for `dt` microseconds.
    pub fn advance(&self, dt: u32) -> (r: Laser)
        requires
            self@.wf(),
        ensures
            r@ == self@.advanced(dt as int),
    {
        let t: i64 = dt as i64;
        assert(-1_000_000 * 400 * 0xffff_ffff <= self.dx * LASER_SPEED * t <= 1_000_000 * 400 * 0xffff_ffff)
            by (nonlinear_arith)
            requires
                -1_000_000 <= self.dx <= 1_000_000,
                LASER_SPEED == 400,
                0 <= t <= 0xffff_ffff,
        ;
        assert(-1_000_000 * 400 * 0xffff_ffff <= self.dy * LASER_SPEED * t <= 1_000_000 * 400 * 0xffff_ffff)
            by (nonlinear_arith)
            requires
                -1_000_000 <= self.dy <= 1_000_000,
                LASER_SPEED == 400,
                0 <= t <= 0xffff_ffff,
        ;
        Laser {
            x: self.x + self.dx * LASER_SPEED * t,
            y: self.y + self.dy * LASER_SPEED * t,
            dx: self.dx,
            dy: self.dy,
        }
    }

    /// Whether the beam is inside the screen widened by the cull margin on
    /// every side, or on the edge of it.
    pub fn on_screen(&self, screen: &Screen) -> (r: bool)
        ensures
            r == self@.on_screen(screen@),
    {
        let w = screen.width();
        let h = screen.height();
        -CULL_MARGIN <= self.x && self.x <= w + CULL_MARGIN && -CULL_MARGIN <= self.y && self.y
            <= h + CULL_MARGIN
    }

    /// Where the head of the beam is drawn.
    pub fn tip(&self) -> (r: Point)
        requires
            self@.wf(),
        ensures
            r@ == self@.tip(),
    {
        Point {
            x: self.x + self.dx * (LASER_LENGTH / MICRO),
            y: self.y + self.dy * (LASER_LENGTH / MICRO),
        }
    }
}

/// Whether every beam is well formed.
pub fn all_valid(lasers: &Vec<Laser>) -> (r: bool)
    ensures
        r == all_lasers_wf(views_of(lasers@)),
{
    let mut i: usize = 0;
    while i < lasers.len()
        invariant
            i <= lasers.len(),
            forall|j: int| 0 <= j < i ==> (#[trigger] views_of(lasers@)[j]).wf(),
        decreases lasers.len() - i,
    {
        if !lasers[i].is_valid() {
            assert(!views_of(lasers@)[i as int].wf());
            return false;
        }
        i += 1;
    }
    true
}

/// Lets every beam fly for `dt` microseconds and keeps those still on screen.
pub fn advance_and_cull(lasers: &Vec<Laser>, screen: &Screen, dt: u32) -> (out: Vec<Laser>)
    requires
        all_lasers_wf(views_of(lasers@)),
    ensures
        views_of(out@) == lasers_after(views_of(lasers@), screen@, dt as int),
        all_lasers_wf(views_of(out@)),
{
    let ghost flown = advance_all(views_of(lasers@), dt as int);
    let ghost keep = |l: LaserView| l.on_screen(screen@);
    let mut out: Vec<Laser> = Vec::new();
    let mut i: usize = 0;
    proof {
        reveal(Seq::filter);
    }
    while i < lasers.len()
        invariant
            i <= lasers.len(),
            all_lasers_wf(views_of(lasers@)),
            all_lasers_wf(views_of(out@)),
            flown == advance_all(views_of(lasers@), dt as int),
            keep == |l: LaserView| l.on_screen(screen@),
            views_of(out@) == flown.take(i as int).filter(keep),
        decreases lasers.len() - i,
    {
        assert(views_of(lasers@)[i as int].wf());
        let moved = lasers[i].advance(dt);
        let ghost before = views_of(out@);
        proof {
            assert(flown.take(i as int + 1) =~= flown.take(i as int).push(flown[i as int]));
            flown.take(i as int).lemma_filter_push(flown[i as int], keep);
            use_type_invariant(screen);
        }
        if moved.on_screen(screen) {
            out.push(moved);
            proof {
                assert forall|j: int| 0 <= j < out.len() implies (#[trigger] views_of(
                    out@,
                )[j]).wf() by {
                    if j < out.len() - 1 {
                        assert(before[j].wf());
                    }
                }
            }
        }
        i += 1;
    }
    proof {
        assert(flown.take(lasers.len() as int) =~= flown);
    }
    out
}

} // verus!

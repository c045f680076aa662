//! What the player asked for during one frame.

use vstd::prelude::*;
use crate::geometry::Point;
use crate::units::{DIAGONAL, MICRO};

verus! {

/// The state of the controls during one frame.
#[derive(Clone, Copy, Debug)]
pub struct Input {
    /// Whether a control for moving up is held.
    pub up: bool,
    /// Whether a control for moving down is held.
    pub down: bool,
    /// Whether a control for moving left is held.
    pub left: bool,
    /// Whether a control for moving right is held.
    pub right: bool,
    /// How many times the fire control went down during the frame.
    pub fire: u32,
    /// Where the pointer is.
    pub pointer: Point,
    /// Whether the restart control went down during the frame.
    pub restart: bool,
}

/// The sign of one axis: the forward control counts one, the backward
/// control minus one.
pub open spec fn axis(backward: bool, forward: bool) -> int {
    (if forward { 1int } else { 0int }) - (if backward { 1int } else { 0int })
}

/// The length of each active component of a heading whose axes have the
/// signs `ax` and `ay`: shortened where both axes are active, so that a
/// diagonal is no faster than a straight line.
pub open spec fn reach(ax: int, ay: int) -> int {
    if ax != 0 && ay != 0 {
        DIAGONAL as int
    } else {
        MICRO as int
    }
}

impl Input {
    /// The heading that the movement controls ask for, in millionths.
    pub open spec fn heading(self) -> (int, int) {
        let ax = axis(self.left, self.right);
        let ay = axis(self.up, self.down);
        (ax * reach(ax, ay), ay * reach(ax, ay))
    }

    /// The heading that the movement controls ask for, in millionths.
    pub fn direction(&self) -> (r: (i64, i64))
        ensures
            (r.0 as int, r.1 as int) == self.heading(),
            -MICRO <= r.0 <= MICRO,
            -MICRO <= r.1 <= MICRO,
    {
        let mut ax: i64 = 0;
        let mut ay: i64 = 0;
        if self.up {
            ay = ay - 1;
        }
        if self.down {
            ay = ay + 1;
        }
        if self.left {
            ax = ax - 1;
        }
        if self.right {
            ax = ax + 1;
        }
        let len: i64 = if ax != 0 && ay != 0 {
            DIAGONAL
        } else {
            MICRO
        };
        (ax * len, ay * len)
    }
}

} // verus!

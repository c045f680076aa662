//! The visible play field.

use vstd::prelude::*;
use crate::units::{MAX_SCREEN, PLAYER_SIZE};

verus! {

/// The size of the play field, in sub-units.
///
/// A screen is at least as large as the player and no larger than
/// `MAX_SCREEN` in either direction.
#[derive(Clone, Copy, Debug)]
pub struct Screen {
    width: i64,
    height: i64,
}

/// The mathematical size that a `Screen` stands for.
pub struct Bounds {
    pub width: int,
    pub height: int,
}

impl Bounds {
    /// Whether a play field of this size can hold the player.
    pub open spec fn valid(self) -> bool {
        &&& PLAYER_SIZE <= self.width <= MAX_SCREEN
        &&& PLAYER_SIZE <= self.height <= MAX_SCREEN
    }
}

impl View for Screen {
    type V = Bounds;

    closed spec fn view(&self) -> Bounds {
        Bounds { width: self.width as int, height: self.height as int }
    }
}

impl Screen {
    /// Every screen has a valid size.
    #[verifier::type_invariant]
    pub open spec fn inv(self) -> bool {
        self@.valid()
    }

    /// A screen of the given size, or `None` where the size is out of range.
    pub fn new(width: i64, height: i64) -> (r: Option<Screen>)
        ensures
            r.is_some() <==> (Bounds { width: width as int, height: height as int }).valid(),
            r matches Some(s) ==> s@ == (Bounds { width: width as int, height: height as int }),
    {
        if PLAYER_SIZE <= width && width <= MAX_SCREEN && PLAYER_SIZE <= height && height
            <= MAX_SCREEN {
            Some(Screen { width, height })
        } else {
            None
        }
    }

    /// The width of the play field.
    pub fn width(&self) -> (w: i64)
        ensures
            w == self@.width,
            self@.valid(),
    {
        proof {
            use_type_invariant(self);
        }
        self.width
    }

    /// The height of the play field.
    pub fn height(&self) -> (h: i64)
        ensures
            h == self@.height,
            self@.valid(),
    {
        proof {
            use_type_invariant(self);
        }
        self.height
    }
}

} // verus!

//! A deterministic fixed-point core for a small arcade survival game.
//!
//! A player dodges the enemies that walk at it from the edges of the screen
//! and shoots lasers at them. The library holds the whole simulation and
//! advances it frame by frame; it neither draws nor reads any device. The
//! caller hands in the state of the controls, the size of the screen and the
//! time that has passed, and reads back what there is to draw.
//!
//! All quantities are integers (see [`units`]), so a frame is an exact
//! function of its arguments, except for the place at which an enemy
//! appears, which is drawn from a random generator. Every type has a
//! mathematical view, the frame is defined on those views
//! ([`game::GameView::frame`]), and every function is proved to compute what
//! the definition says. [`laws`] holds what follows for every game.

pub mod units;
pub mod geometry;
pub mod screen;
pub mod input;
pub mod laser;
pub mod enemy;
pub mod player;
pub mod spawner;
pub mod collision;
pub mod game;
pub mod laws;

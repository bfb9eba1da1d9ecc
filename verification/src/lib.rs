//! Core of a grid-based snake game: board geometry with edge-clamped
//! movement, and the tick-driven state machine that moves the snake,
//! lets it grow on fruit, grants a one-tick grace on self-collision,
//! and places fresh fruit outside the body.

pub mod geometry;
pub mod game;

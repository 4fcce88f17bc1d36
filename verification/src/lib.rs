//! Core logic of a small "falling ball" arcade game: a reusable
//! countdown/countup timer with edge-triggered events, progress bars driven
//! by such timers, expiring target blocks on a grid, a ball with explicit
//! Euler integration of a pseudo-3D height, and the game state machine that
//! orchestrates them (spawn scheduling, scoring, lives).
//!
//! All quantities are integers: instants and durations are clock ticks,
//! progress values are fixed-point fractions of `VALUE_SCALE`, and geometry
//! lives on an integer coordinate grid. Rendering and audio are left to the
//! caller, which reads the public state and the cue values returned by the
//! tick functions.

pub mod units;
pub mod timer;
pub mod bar;
pub mod num;
pub mod ball;
pub mod block;
pub mod rng;
pub mod game;

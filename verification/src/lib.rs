//! Simulation core of a small arcade game: players spawned from connected
//! controllers run and jump along a ground line, catching falling stars for
//! points; the first player to reach the winning score is presented as the
//! winner.
//!
//! This crate holds the authored gameplay rules — the spawn timer, star
//! spawning and cleanup, player join handling, movement decisions, catch
//! resolution and the scoreboard — as verified functions over a plain world
//! model. Rendering, physics integration, input mapping and audio belong to
//! the engine substrate around it; the systems here communicate with that
//! substrate through plain values (event sequences in, effect sequences out).
//!
//! Units: positions are kept in thousandths of a pixel, velocities in pixels
//! per second (so a velocity is exactly the position change per millisecond,
//! in thousandths), durations in milliseconds, angular velocity in
//! thousandths of a radian per second, and the run axis in thousandths of
//! full deflection.

pub mod game;
pub mod rng;
pub mod scoreboard;
pub mod timer;

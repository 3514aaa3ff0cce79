//! Simulation core of a small orbital-defence arcade game.
//!
//! A player ship orbits a central planet, enemy threats converge on the
//! planet, and the player fires projectiles to destroy them.  This crate
//! holds the whole per-frame simulation: player orbit, threat spawning and
//! motion, projectile motion and collision, scoring and combo bookkeeping,
//! particle effects and game-over detection.  Rendering, audio playback and
//! input handling are host concerns; the simulation only records sound
//! events in a queue that the host drains.
//!
//! All quantities are integers so that every step can be verified exactly:
//! * lengths are in milliunits (1000 milliunits = one field unit; the field
//!   is 800 x 600 units),
//! * angles are in whole degrees in `[0, 360)`,
//! * times are in milliseconds.

pub mod constants;
pub mod entities;
pub mod num;
pub mod physics;
pub mod rng;
pub mod sound;
pub mod state;
pub mod systems;
pub mod trig;

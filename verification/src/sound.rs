//! Sound events that the simulation emits.
//!
//! The simulation never plays audio itself: it appends events to a queue
//! in the game state, fire-and-forget, and the host drains the queue after
//! each frame and plays whatever its audio backend offers.  A host with no
//! working audio may simply discard the queue; the simulation does not
//! depend on it.

use vstd::prelude::*;

verus! {

/// One audible event.
#[derive(Clone, Copy, Debug, PartialEq, Eq, Structural)]
pub enum Sound {
    /// The player fired a projectile.
    Shoot,
    /// A projectile destroyed a threat.
    Explosion,
    /// A threat reached the planet.
    PlanetHit,
    /// Looped background music; emitted by hosts, never by the simulation.
    Background,
}

} // verus!

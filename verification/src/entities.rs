//! The entity records of the simulation: player, threats, projectiles and
//! particles, together with their well-formedness predicates.
//!
//! Positions and velocities are in milliunits per tick, angles in degrees,
//! lifetimes in milliseconds.

use crate::constants::CENTER_X;
use crate::constants::CENTER_Y;
use crate::constants::DEFAULT_ORBIT_RATE;
use crate::constants::ENTITY_BOUND;
use crate::constants::MUZZLE_SPEED;
use crate::constants::ORBIT_ARM;
use crate::constants::ORBIT_RADIUS;
use crate::constants::PARTICLE_LIFETIME_MS;
use crate::constants::PARTICLE_SIZE_MAX;
use crate::constants::PARTICLE_SPEED_MAX;
use crate::constants::POSITION_LIMIT;
use crate::constants::PROJECTILE_RADIUS;
use crate::constants::THREAT_RADIUS_MAX;
use crate::constants::THREAT_SPEED_MAX;
use crate::trig::cos_fp;
use crate::trig::cosine;
use crate::trig::sin_fp;
use crate::trig::sine;
use vstd::prelude::*;

verus! {

/// The x coordinate derived from a player angle: the player ship sits on
/// the orbit circle around the planet.
pub open spec fn player_x(angle: int) -> int {
    CENTER_X + cos_fp(angle) * ORBIT_ARM
}

/// The y coordinate derived from a player angle.
pub open spec fn player_y(angle: int) -> int {
    CENTER_Y + sin_fp(angle) * ORBIT_ARM
}

/// The player ship.  Its position is always derived from `angle`, never
/// stored.
#[derive(Clone, Copy, Debug, PartialEq, Eq, Structural)]
pub struct Player {
    /// Where on the orbit the ship sits, in degrees in `[0, 360)`.
    pub angle: i64,
    /// Signed angular velocity, in degrees per tick.
    pub speed: i64,
}

impl Player {
    /// A well-formed player: the angle is a wrapped degree value and the
    /// angular rate is less than a full turn per tick.
    pub open spec fn wf(self) -> bool {
        &&& 0 <= self.angle < 360
        &&& -360 < self.speed < 360
    }

    /// The initial player: angle 0, default orbital rate.
    pub fn new() -> (p: Player)
        ensures
            p.wf(),
            p.angle == 0,
            p.speed == DEFAULT_ORBIT_RATE,
    {
        Player { angle: 0, speed: DEFAULT_ORBIT_RATE }
    }

    /// The derived position of the ship on the orbit circle.
    pub fn get_position(&self) -> (r: (i64, i64))
        requires
            self.wf(),
        ensures
            r.0 == player_x(self.angle as int),
            r.1 == player_y(self.angle as int),
            CENTER_X - ORBIT_RADIUS <= r.0 <= CENTER_X + ORBIT_RADIUS,
            CENTER_Y - ORBIT_RADIUS <= r.1 <= CENTER_Y + ORBIT_RADIUS,
    {
        let c = cosine(self.angle);
        let s = sine(self.angle);
        (CENTER_X + c * ORBIT_ARM, CENTER_Y + s * ORBIT_ARM)
    }
}

/// An enemy threat converging on the planet.
#[derive(Clone, Copy, Debug, PartialEq, Eq, Structural)]
pub struct Threat {
    pub x: i64,
    pub y: i64,
    pub vx: i64,
    pub vy: i64,
    /// Strictly positive; a radius of 0 marks a threat as destroyed and
    /// only occurs transiently inside a single update pass.
    pub radius: i64,
}

impl Threat {
    /// A well-formed threat: bounded position and velocity, positive
    /// radius.
    pub open spec fn wf(self) -> bool {
        &&& -ENTITY_BOUND <= self.x <= ENTITY_BOUND
        &&& -ENTITY_BOUND <= self.y <= ENTITY_BOUND
        &&& -THREAT_SPEED_MAX <= self.vx <= THREAT_SPEED_MAX
        &&& -THREAT_SPEED_MAX <= self.vy <= THREAT_SPEED_MAX
        &&& 0 < self.radius <= THREAT_RADIUS_MAX
    }
}

/// A projectile fired by the player.
#[derive(Clone, Copy, Debug, PartialEq, Eq, Structural)]
pub struct Projectile {
    pub x: i64,
    pub y: i64,
    pub vx: i64,
    pub vy: i64,
    pub radius: i64,
}

impl Projectile {
    /// A well-formed projectile: bounded position and velocity, positive
    /// radius.
    pub open spec fn wf(self) -> bool {
        &&& -ENTITY_BOUND <= self.x <= ENTITY_BOUND
        &&& -ENTITY_BOUND <= self.y <= ENTITY_BOUND
        &&& -MUZZLE_SPEED <= self.vx <= MUZZLE_SPEED
        &&& -MUZZLE_SPEED <= self.vy <= MUZZLE_SPEED
        &&& 0 < self.radius <= PROJECTILE_RADIUS
    }
}

/// A three-channel color, for rendering only.
#[derive(Clone, Copy, Debug, PartialEq, Eq, Structural)]
pub struct Color {
    pub r: u8,
    pub g: u8,
    pub b: u8,
}

/// The color of the burst when a threat reaches the planet.
pub open spec fn planet_hit_color() -> Color {
    Color { r: 255, g: 100, b: 100 }
}

/// The color of the burst when a projectile destroys a threat.
pub open spec fn threat_kill_color() -> Color {
    Color { r: 255, g: 200, b: 100 }
}

/// A short-lived explosion particle.
#[derive(Clone, Copy, Debug, PartialEq, Eq, Structural)]
pub struct Particle {
    pub x: i64,
    pub y: i64,
    pub vx: i64,
    pub vy: i64,
    pub size: i64,
    /// Remaining lifetime; the particle is discarded once this drops to 0.
    pub lifetime: i64,
    /// Lifetime at creation, kept so a renderer can fade the particle out.
    pub max_lifetime: i64,
    /// Three-channel color, for rendering only.
    pub color: Color,
}

impl Particle {
    /// A well-formed particle: position within the numeric rim of the
    /// field model, bounded velocity and size, positive remaining
    /// lifetime.
    pub open spec fn wf(self) -> bool {
        &&& -POSITION_LIMIT <= self.x <= POSITION_LIMIT
        &&& -POSITION_LIMIT <= self.y <= POSITION_LIMIT
        &&& -PARTICLE_SPEED_MAX <= self.vx <= PARTICLE_SPEED_MAX
        &&& -PARTICLE_SPEED_MAX <= self.vy <= PARTICLE_SPEED_MAX
        &&& 0 < self.size <= PARTICLE_SIZE_MAX
        &&& 0 < self.lifetime <= self.max_lifetime
        &&& self.max_lifetime <= PARTICLE_LIFETIME_MS
    }
}

} // verus!

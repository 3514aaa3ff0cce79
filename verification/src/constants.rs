//! Tunable configuration of the playfield and of the difficulty curve.
//!
//! Lengths are in milliunits, times in milliseconds, angles in degrees.

use vstd::prelude::*;

verus! {

/// Width of the playfield.
pub const FIELD_WIDTH: i64 = 800_000;

/// Height of the playfield.
pub const FIELD_HEIGHT: i64 = 600_000;

/// The planet sits at the field center.
pub const CENTER_X: i64 = 400_000;

/// See `CENTER_X`.
pub const CENTER_Y: i64 = 300_000;

/// Radius of the planet.
pub const PLANET_RADIUS: i64 = 50_000;

/// The player orbits the center at this fixed radius.
pub const ORBIT_RADIUS: i64 = 150_000;

/// Scale of the fixed-point trigonometric values: `trig::sin_fp` and
/// `trig::cos_fp` range over `[-SCALE, SCALE]` standing for `[-1, 1]`.
pub const SCALE: i64 = 1000;

/// `ORBIT_RADIUS / SCALE`: multiplying a trigonometric value by this arm
/// yields a coordinate offset on the orbit circle.
pub const ORBIT_ARM: i64 = 150;

/// `MUZZLE_SPEED / SCALE`: multiplying a trigonometric value by this arm
/// yields a projectile velocity component.
pub const MUZZLE_ARM: i64 = 8;

/// Default angular rate of the player, in degrees per tick.
pub const DEFAULT_ORBIT_RATE: i64 = 1;

/// Angular rate of the player while steering, in degrees per tick.
pub const STEER_RATE: i64 = 2;

/// Speed of a projectile, per tick (8 units/tick).
pub const MUZZLE_SPEED: i64 = 8_000;

/// Radius of a projectile.
pub const PROJECTILE_RADIUS: i64 = 5_000;

/// A projectile is kept only while on screen with this margin beyond its
/// radius.
pub const PROJECTILE_MARGIN: i64 = 10_000;

/// A threat is kept only while on screen with this margin beyond its
/// radius (20% of the field width).
pub const THREAT_MARGIN: i64 = 160_000;

/// Threats spawn at this distance from the field center (60% of the field
/// width), outside the visible play area.
pub const SPAWN_DISTANCE: i64 = 480_000;

/// `SPAWN_DISTANCE / SCALE`: multiplying a trigonometric value by this
/// arm yields a coordinate offset on the spawn circle.
pub const SPAWN_ARM: i64 = 480;

/// Smallest per-tick speed of a spawned threat.
pub const THREAT_SPEED_MIN: i64 = 1_500;

/// Largest per-tick speed of a spawned threat.
pub const THREAT_SPEED_MAX: i64 = 2_500;

/// Smallest radius of a spawned threat.
pub const THREAT_RADIUS_MIN: i64 = 12_000;

/// Largest radius of a spawned threat.
pub const THREAT_RADIUS_MAX: i64 = 18_000;

/// A spawned threat aims at a point jittered around the planet center by at
/// most this much on each axis (three quarters of the planet radius).
pub const AIM_JITTER: i64 = 37_500;

/// Floor on the aim distance when normalizing a threat's velocity, so that
/// the division is never by zero (a required edge-case policy).
pub const AIM_DISTANCE_FLOOR: i64 = 100;

/// Damage to the planet when a threat reaches it.
pub const PLANET_HIT_DAMAGE: i32 = 10;

/// Initial planet health.
pub const FULL_HEALTH: i32 = 100;

/// The combo window: time after a hit before the combo resets.
pub const COMBO_WINDOW_MS: i64 = 2000;

/// Points awarded per destroyed threat, before the combo multiplier.
pub const POINTS_BASE: u32 = 10;

/// The combo multiplier caps at this factor.
pub const COMBO_CAP: u32 = 10;

/// Screen shake intensity is clamped to this cap.
pub const SHAKE_CAP: i64 = 15_000;

/// A shake increment above this threshold also emits an impact sound.
pub const SHAKE_SOUND_THRESHOLD: u32 = 5_000;

/// Shake added per threat that reaches the planet.
pub const PLANET_HIT_SHAKE: u32 = 6_000;

/// Shake added per threat destroyed by a projectile.
pub const THREAT_KILL_SHAKE: u32 = 2_000;

/// Shake decays by this much per millisecond.
pub const SHAKE_DECAY_PER_MS: i64 = 5;

/// Lifetime of an explosion particle.
pub const PARTICLE_LIFETIME_MS: i64 = 1000;

/// Particle lifetime decays by this much per millisecond of frame time.
pub const PARTICLE_DECAY_PER_MS: i64 = 2;

/// Per-tick velocity damping of a particle: v := v * 98 / 100.
pub const FRICTION_NUM: i64 = 98;

/// See `FRICTION_NUM`.
pub const FRICTION_DEN: i64 = 100;

/// Smallest per-tick speed of an explosion particle.
pub const PARTICLE_SPEED_MIN: i64 = 1_500;

/// Largest per-tick speed of an explosion particle.
pub const PARTICLE_SPEED_MAX: i64 = 4_500;

/// Smallest size of an explosion particle.
pub const PARTICLE_SIZE_MIN: i64 = 1_000;

/// Largest size of an explosion particle.
pub const PARTICLE_SIZE_MAX: i64 = 4_000;

/// Particles created when a threat reaches the planet.
pub const PLANET_HIT_PARTICLES: u32 = 20;

/// Particles created when a projectile destroys a threat.
pub const THREAT_KILL_PARTICLES: u32 = 15;

/// Spawn interval at time zero.
pub const SPAWN_INTERVAL_START_MS: i64 = 2000;

/// Floor of the spawn interval.
pub const SPAWN_INTERVAL_MIN_MS: i64 = 500;

/// The spawn interval ramps linearly from its start value down to its floor
/// as elapsed time approaches this duration.
pub const SPAWN_RAMP_MS: u64 = 60_000;

/// A single update step is clamped to this much elapsed time, so that a
/// long stall cannot destabilize the integration.
pub const MAX_STEP_MS: u64 = 250;

/// Particle positions saturate at this distance from the origin; threats
/// and projectiles never get near it, since they are discarded once they
/// leave the screen margins.
pub const POSITION_LIMIT: i64 = 2_000_000_000;

/// Well-formed threats and projectiles stay within this bound on each
/// coordinate; it is far outside every screen margin.
pub const ENTITY_BOUND: i64 = 2_000_000;

} // verus!

//! The simulation state and its mutation API.
//!
//! `GameState` owns every entity collection and every scalar of the game.
//! The per-frame pipeline lives in `systems`; this module holds the state
//! itself, its well-formedness invariant, and the mutations that input
//! handlers call between frames: `shoot`, `create_explosion` and
//! `add_screen_shake`.

use crate::constants::COMBO_WINDOW_MS;
use crate::constants::DEFAULT_ORBIT_RATE;
use crate::constants::FULL_HEALTH;
use crate::constants::MUZZLE_ARM;
use crate::constants::PARTICLE_LIFETIME_MS;
use crate::constants::PARTICLE_SIZE_MAX;
use crate::constants::PARTICLE_SIZE_MIN;
use crate::constants::PARTICLE_SPEED_MAX;
use crate::constants::PARTICLE_SPEED_MIN;
use crate::constants::POSITION_LIMIT;
use crate::constants::PROJECTILE_RADIUS;
use crate::constants::SHAKE_CAP;
use crate::constants::SHAKE_SOUND_THRESHOLD;
use crate::constants::SPAWN_INTERVAL_START_MS;
use crate::entities::Color;
use crate::entities::Particle;
use crate::entities::Player;
use crate::entities::Projectile;
use crate::entities::Threat;
use crate::entities::player_x;
use crate::entities::player_y;
use crate::num::min_i;
use crate::rng::Rng;
use crate::sound::Sound;
use crate::trig::cos_fp;
use crate::trig::cosine;
use crate::trig::mul_scale;
use crate::trig::sin_fp;
use crate::trig::sine;
use vstd::prelude::*;

verus! {

/// Every threat in the sequence is well-formed.
pub open spec fn threats_wf(ts: Seq<Threat>) -> bool {
    forall|i: int| 0 <= i < ts.len() ==> (#[trigger] ts[i]).wf()
}

/// Every projectile in the sequence is well-formed.
pub open spec fn projectiles_wf(ps: Seq<Projectile>) -> bool {
    forall|i: int| 0 <= i < ps.len() ==> (#[trigger] ps[i]).wf()
}

/// Every particle in the sequence is well-formed.
pub open spec fn particles_wf(ps: Seq<Particle>) -> bool {
    forall|i: int| 0 <= i < ps.len() ==> (#[trigger] ps[i]).wf()
}

/// A particle freshly created by an explosion at `(x, y)`: it starts
/// there with full lifetime and the given color, moving in a drawn
/// direction at a drawn speed, with a drawn size.
pub open spec fn exploded_particle(p: Particle, x: int, y: int, color: Color) -> bool {
    &&& p.x == x
    &&& p.y == y
    &&& p.color == color
    &&& p.lifetime == PARTICLE_LIFETIME_MS
    &&& p.max_lifetime == PARTICLE_LIFETIME_MS
    &&& exists|a: int, spd: int|
        {
            &&& 0 <= a < 360
            &&& PARTICLE_SPEED_MIN <= spd <= PARTICLE_SPEED_MAX
            &&& p.vx == mul_scale(cos_fp(a), spd)
            &&& p.vy == mul_scale(sin_fp(a), spd)
        }
    &&& PARTICLE_SIZE_MIN <= p.size <= PARTICLE_SIZE_MAX
}

/// The whole simulation state.
///
/// Fields are public so that a renderer can read a finished frame
/// directly; the verified methods all preserve `wf`, and unverified
/// hosts are expected to mutate only `player.speed` (and the state
/// through the methods here).
pub struct GameState {
    pub player: Player,
    pub threats: Vec<Threat>,
    pub projectiles: Vec<Projectile>,
    pub particles: Vec<Particle>,
    /// Total points; only ever grows.
    pub score: u32,
    /// In `[0, FULL_HEALTH]`; reaching 0 forces `game_over` for good.
    pub planet_health: i32,
    /// Elapsed simulation time in milliseconds.
    pub time: u64,
    pub game_over: bool,
    /// Consecutive hits inside the combo window.
    pub combo: u32,
    /// Milliseconds left before the combo resets.
    pub combo_timer: i64,
    /// Shake intensity handed to the renderer; decays to 0.
    pub screen_shake: i64,
    /// Milliseconds until the next threat spawns.
    pub threat_spawn_timer: i64,
    /// Deterministic source of spawn jitter and particle scatter.
    pub rng: Rng,
    /// Sound events for the host to drain and play, fire-and-forget.
    pub sounds: Vec<Sound>,
}

impl GameState {
    /// The state invariant: every constructor establishes it and every
    /// method preserves it.
    pub open spec fn wf(self) -> bool {
        &&& self.player.wf()
        &&& threats_wf(self.threats@)
        &&& projectiles_wf(self.projectiles@)
        &&& particles_wf(self.particles@)
        &&& 0 <= self.planet_health <= FULL_HEALTH
        &&& self.planet_health == 0 ==> self.game_over
        &&& 0 <= self.combo_timer <= COMBO_WINDOW_MS
        &&& self.combo_timer == 0 ==> self.combo == 0
        &&& self.combo_timer > 0 ==> self.combo >= 1
        &&& 0 <= self.screen_shake <= SHAKE_CAP
        &&& 0 < self.threat_spawn_timer <= SPAWN_INTERVAL_START_MS
    }

    /// All scalar fields and the player agree between `a` and `b`.
    pub open spec fn same_core(a: GameState, b: GameState) -> bool {
        &&& a.player == b.player
        &&& a.score == b.score
        &&& a.planet_health == b.planet_health
        &&& a.time == b.time
        &&& a.game_over == b.game_over
        &&& a.combo == b.combo
        &&& a.combo_timer == b.combo_timer
        &&& a.screen_shake == b.screen_shake
        &&& a.threat_spawn_timer == b.threat_spawn_timer
    }

    /// `a` and `b` agree on every field.
    pub open spec fn same_state(a: GameState, b: GameState) -> bool {
        &&& GameState::same_core(a, b)
        &&& a.threats@ == b.threats@
        &&& a.projectiles@ == b.projectiles@
        &&& a.particles@ == b.particles@
        &&& a.rng == b.rng
        &&& a.sounds@ == b.sounds@
    }

    /// The initial state with a chosen jitter seed: full health, empty
    /// collections, the spawn timer at its initial interval.
    pub fn with_seed(seed: u64) -> (s: GameState)
        ensures
            s.wf(),
            s.player.angle == 0,
            s.player.speed == DEFAULT_ORBIT_RATE,
            s.threats@.len() == 0,
            s.projectiles@.len() == 0,
            s.particles@.len() == 0,
            s.score == 0,
            s.planet_health == FULL_HEALTH,
            s.time == 0,
            !s.game_over,
            s.combo == 0,
            s.combo_timer == 0,
            s.screen_shake == 0,
            s.threat_spawn_timer == SPAWN_INTERVAL_START_MS,
            s.sounds@.len() == 0,
    {
        GameState {
            player: Player::new(),
            threats: Vec::new(),
            projectiles: Vec::new(),
            particles: Vec::new(),
            score: 0,
            planet_health: FULL_HEALTH,
            time: 0,
            game_over: false,
            combo: 0,
            combo_timer: 0,
            screen_shake: 0,
            threat_spawn_timer: SPAWN_INTERVAL_START_MS,
            rng: Rng::from_seed(seed),
            sounds: Vec::new(),
        }
    }

    /// The initial state with a fixed seed.
    pub fn new() -> (s: GameState)
        ensures
            s.wf(),
            s.player.angle == 0,
            s.player.speed == DEFAULT_ORBIT_RATE,
            s.threats@.len() == 0,
            s.projectiles@.len() == 0,
            s.particles@.len() == 0,
            s.score == 0,
            s.planet_health == FULL_HEALTH,
            s.time == 0,
            !s.game_over,
            s.combo == 0,
            s.combo_timer == 0,
            s.screen_shake == 0,
            s.threat_spawn_timer == SPAWN_INTERVAL_START_MS,
            s.sounds@.len() == 0,
    {
        GameState::with_seed(0x243F_6A88_85A3_08D3)
    }

    /// Fires one projectile from the player's derived position, outward
    /// along the facing angle at the muzzle speed, and queues the shot
    /// sound.  A no-op once the game is over.
    pub fn shoot(&mut self)
        requires
            old(self).wf(),
        ensures
            final(self).wf(),
            old(self).game_over ==> GameState::same_state(*final(self), *old(self)),
            !old(self).game_over ==> {
                let a = old(self).player.angle as int;
                &&& final(self).projectiles@ == old(self).projectiles@.push(
                    Projectile {
                        x: player_x(a) as i64,
                        y: player_y(a) as i64,
                        vx: (cos_fp(a) * MUZZLE_ARM) as i64,
                        vy: (sin_fp(a) * MUZZLE_ARM) as i64,
                        radius: PROJECTILE_RADIUS,
                    },
                )
                &&& final(self).sounds@ == old(self).sounds@.push(Sound::Shoot)
            },
            GameState::same_core(*final(self), *old(self)),
            final(self).threats@ == old(self).threats@,
            final(self).particles@ == old(self).particles@,
            final(self).rng == old(self).rng,
            old(self).game_over ==> final(self).projectiles@ == old(self).projectiles@
                && final(self).sounds@ == old(self).sounds@,
    {
        if self.game_over {
            return ;
        }
        let (x, y) = self.player.get_position();
        let c = cosine(self.player.angle);
        let s = sine(self.player.angle);
        let p = Projectile {
            x,
            y,
            vx: c * MUZZLE_ARM,
            vy: s * MUZZLE_ARM,
            radius: PROJECTILE_RADIUS,
        };
        self.projectiles.push(p);
        self.sounds.push(Sound::Shoot);
    }

    /// Appends `count` particles at `(x, y)`, each in a drawn direction
    /// at a drawn speed and size, with full lifetime, and queues the
    /// explosion sound.
    pub fn create_explosion(&mut self, x: i64, y: i64, color: Color, count: u32)
        requires
            old(self).wf(),
            -POSITION_LIMIT <= x <= POSITION_LIMIT,
            -POSITION_LIMIT <= y <= POSITION_LIMIT,
        ensures
            final(self).wf(),
            final(self).particles@.len() == old(self).particles@.len() + count,
            final(self).particles@.subrange(0, old(self).particles@.len() as int) == old(
                self,
            ).particles@,
            forall|i: int|
                old(self).particles@.len() <= i < final(self).particles@.len()
                    ==> exploded_particle(
                    #[trigger] final(self).particles@[i],
                    x as int,
                    y as int,
                    color,
                ),
            final(self).sounds@ == old(self).sounds@.push(Sound::Explosion),
            GameState::same_core(*final(self), *old(self)),
            final(self).threats@ == old(self).threats@,
            final(self).projectiles@ == old(self).projectiles@,
    {
        let burst = burst_particles(&mut self.rng, x, y, color, count);
        let merged = concat_particles(&self.particles, &burst);
        self.particles = merged;
        self.sounds.push(Sound::Explosion);
    }

    /// Raises the screen shake by `intensity`, clamped at the cap; a
    /// heavy increment also queues the impact sound.
    pub fn add_screen_shake(&mut self, intensity: u32)
        requires
            old(self).wf(),
        ensures
            final(self).wf(),
            final(self).screen_shake == min_i(
                old(self).screen_shake + intensity,
                SHAKE_CAP as int,
            ),
            intensity > SHAKE_SOUND_THRESHOLD ==> final(self).sounds@ == old(self).sounds@.push(
                Sound::PlanetHit,
            ),
            intensity <= SHAKE_SOUND_THRESHOLD ==> final(self).sounds@ == old(self).sounds@,
            final(self).player == old(self).player,
            final(self).score == old(self).score,
            final(self).planet_health == old(self).planet_health,
            final(self).time == old(self).time,
            final(self).game_over == old(self).game_over,
            final(self).combo == old(self).combo,
            final(self).combo_timer == old(self).combo_timer,
            final(self).threat_spawn_timer == old(self).threat_spawn_timer,
            final(self).threats@ == old(self).threats@,
            final(self).projectiles@ == old(self).projectiles@,
            final(self).particles@ == old(self).particles@,
            final(self).rng == old(self).rng,
    {
        let raised = self.screen_shake + (intensity as i64);
        self.screen_shake = if raised > SHAKE_CAP {
            SHAKE_CAP
        } else {
            raised
        };
        if intensity > SHAKE_SOUND_THRESHOLD {
            self.sounds.push(Sound::PlanetHit);
        }
    }
}

/// Builds the particles of one explosion burst.
pub(crate) fn burst_particles(rng: &mut Rng, x: i64, y: i64, color: Color, count: u32) -> (ps: Vec<Particle>)
    requires
        -POSITION_LIMIT <= x <= POSITION_LIMIT,
        -POSITION_LIMIT <= y <= POSITION_LIMIT,
    ensures
        ps@.len() == count,
        forall|i: int|
            0 <= i < ps@.len() ==> exploded_particle(#[trigger] ps@[i], x as int, y as int, color),
        forall|i: int| 0 <= i < ps@.len() ==> (#[trigger] ps@[i]).wf(),
{
    let mut ps: Vec<Particle> = Vec::new();
    let mut i: u32 = 0;
    while i < count
        invariant
            i <= count,
            ps@.len() == i,
            -POSITION_LIMIT <= x <= POSITION_LIMIT,
            -POSITION_LIMIT <= y <= POSITION_LIMIT,
            forall|j: int|
                0 <= j < ps@.len() ==> exploded_particle(
                    #[trigger] ps@[j],
                    x as int,
                    y as int,
                    color,
                ),
            forall|j: int| 0 <= j < ps@.len() ==> (#[trigger] ps@[j]).wf(),
        decreases count - i,
    {
        let a = rng.below(360) as i64;
        let spd = rng.range_i64(PARTICLE_SPEED_MIN, PARTICLE_SPEED_MAX);
        let size = rng.range_i64(PARTICLE_SIZE_MIN, PARTICLE_SIZE_MAX);
        let c = cosine(a);
        let s = sine(a);
        let p = Particle {
            x,
            y,
            vx: scale_by_trig_speed(c, spd),
            vy: scale_by_trig_speed(s, spd),
            size,
            lifetime: PARTICLE_LIFETIME_MS,
            max_lifetime: PARTICLE_LIFETIME_MS,
            color,
        };
        proof {
            assert(exploded_particle(p, x as int, y as int, color)) by {
                assert(0 <= a < 360 && PARTICLE_SPEED_MIN <= spd <= PARTICLE_SPEED_MAX
                    && p.vx == mul_scale(cos_fp(a as int), spd as int) && p.vy == mul_scale(
                    sin_fp(a as int),
                    spd as int,
                ));
            }
        }
        ps.push(p);
        i = i + 1;
    }
    ps
}

/// `scale_by_trig`, specialized to particle speeds.
fn scale_by_trig_speed(t: i64, k: i64) -> (r: i64)
    requires
        -1000 <= t <= 1000,
        0 <= k <= PARTICLE_SPEED_MAX,
    ensures
        r == mul_scale(t as int, k as int),
        -PARTICLE_SPEED_MAX <= r <= PARTICLE_SPEED_MAX,
{
    crate::trig::scale_by_trig(t, k)
}

/// A fresh vector holding `a` followed by `b`.
fn concat_particles(a: &Vec<Particle>, b: &Vec<Particle>) -> (r: Vec<Particle>)
    ensures
        r@ == a@ + b@,
        r@.len() == a@.len() + b@.len(),
        r@.subrange(0, a@.len() as int) == a@,
{
    let mut r: Vec<Particle> = Vec::new();
    proof {
        assert(r@ =~= a@.subrange(0, 0));
    }
    let mut i: usize = 0;
    while i < a.len()
        invariant
            i <= a@.len(),
            r@ == a@.subrange(0, i as int),
        decreases a@.len() - i,
    {
        r.push(a[i]);
        proof {
            assert(r@ =~= a@.subrange(0, i as int + 1));
        }
        i = i + 1;
    }
    proof {
        assert(r@ =~= a@);
        assert(r@ =~= a@ + b@.subrange(0, 0));
    }
    let mut j: usize = 0;
    while j < b.len()
        invariant
            j <= b@.len(),
            r@ == a@ + b@.subrange(0, j as int),
        decreases b@.len() - j,
    {
        r.push(b[j]);
        proof {
            assert(r@ =~= a@ + b@.subrange(0, j as int + 1));
        }
        j = j + 1;
    }
    proof {
        assert(b@.subrange(0, b@.len() as int) =~= b@);
        assert(r@.subrange(0, a@.len() as int) =~= a@);
    }
    r
}

} // verus!

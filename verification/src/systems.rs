//! The per-frame update pipeline.
//!
//! `GameState::update` runs the ordered sub-steps of one frame: clock,
//! player motion, threat spawning, threat motion and planet collision,
//! projectile motion and threat collision, particle aging, combo decay
//! and shake decay.  Each sub-step is public with its own exact contract,
//! so that a scenario can drive a single step on its own.
//!
//! Steps that remove entities from a collection first compute what
//! survives and which effects are owed, and only then apply the effects:
//! the deferred, two-phase discipline that keeps a pass from mutating the
//! collection it is walking.

use crate::constants::AIM_DISTANCE_FLOOR;
use crate::constants::ENTITY_BOUND;
use crate::constants::FULL_HEALTH;
use crate::constants::PLANET_HIT_DAMAGE;
use crate::constants::PLANET_HIT_PARTICLES;
use crate::constants::PLANET_HIT_SHAKE;
use crate::constants::SHAKE_CAP;
use crate::constants::THREAT_MARGIN;
use crate::constants::COMBO_CAP;
use crate::constants::COMBO_WINDOW_MS;
use crate::constants::POINTS_BASE;
use crate::constants::PROJECTILE_MARGIN;
use crate::constants::THREAT_KILL_PARTICLES;
use crate::constants::THREAT_KILL_SHAKE;
use crate::constants::AIM_JITTER;
use crate::constants::CENTER_X;
use crate::constants::CENTER_Y;
use crate::constants::MAX_STEP_MS;
use crate::constants::PARTICLE_DECAY_PER_MS;
use crate::constants::POSITION_LIMIT;
use crate::constants::SHAKE_DECAY_PER_MS;
use crate::constants::SPAWN_ARM;
use crate::constants::SPAWN_INTERVAL_MIN_MS;
use crate::constants::SPAWN_INTERVAL_START_MS;
use crate::constants::SPAWN_RAMP_MS;
use crate::constants::THREAT_RADIUS_MAX;
use crate::constants::THREAT_RADIUS_MIN;
use crate::constants::THREAT_SPEED_MAX;
use crate::constants::THREAT_SPEED_MIN;
use crate::entities::Color;
use crate::entities::Particle;
use crate::entities::planet_hit_color;
use crate::entities::Projectile;
use crate::entities::Threat;
use crate::entities::threat_kill_color;
use crate::num::clamp_i;
use crate::num::isqrt_u64;
use crate::num::max_i;
use crate::num::min_i;
use crate::rng::Rng;
use crate::num::clock_add;
use crate::num::sat_add_u64;
use crate::num::score_add;
use crate::physics::check_collision;
use crate::physics::is_on_screen;
use crate::physics::overlaps;
use crate::physics::is_threat_hitting_planet;
use crate::physics::on_screen_at;
use crate::physics::within_planet;
use crate::sound::Sound;
use crate::state::GameState;
use crate::state::burst_particles;
use crate::state::exploded_particle;
use crate::state::particles_wf;
use crate::state::projectiles_wf;
use crate::state::threats_wf;
use crate::trig::cos_fp;
use crate::trig::cosine;
use crate::trig::sin_fp;
use crate::trig::sine;
use vstd::arithmetic::div_mod::lemma_div_pos_is_pos;
use vstd::arithmetic::div_mod::lemma_fundamental_div_mod_converse_div;
use vstd::arithmetic::div_mod::lemma_multiply_divide_le;
use vstd::prelude::*;

verus! {

/// One wrap step pulling `a` back into `[0, 360)`; enough for any single
/// player move, whose angular rate is under a full turn.
pub open spec fn wrap_deg(a: int) -> int {
    if a >= 360 {
        a - 360
    } else if a < 0 {
        a + 360
    } else {
        a
    }
}

/// The spawn interval after `time_ms` of play: ramps linearly from its
/// start value at time 0 down to its floor at `SPAWN_RAMP_MS`, and stays
/// clamped at the floor thereafter.
pub open spec fn spawn_interval_of(time_ms: int) -> int {
    SPAWN_INTERVAL_START_MS - ((SPAWN_INTERVAL_START_MS - SPAWN_INTERVAL_MIN_MS) * min_i(
        time_ms,
        SPAWN_RAMP_MS as int,
    )) / (SPAWN_RAMP_MS as int)
}

/// The difficulty curve never slackens: as time passes, the spawn
/// interval only shrinks, and it stays between its floor and its start
/// value.
pub proof fn lemma_spawn_interval_monotone(t1: int, t2: int)
    requires
        0 <= t1 <= t2,
    ensures
        spawn_interval_of(t2) <= spawn_interval_of(t1),
        SPAWN_INTERVAL_MIN_MS <= spawn_interval_of(t2) <= SPAWN_INTERVAL_START_MS,
{
    let m1 = min_i(t1, SPAWN_RAMP_MS as int);
    let m2 = min_i(t2, SPAWN_RAMP_MS as int);
    vstd::arithmetic::div_mod::lemma_div_is_ordered(1500 * m1, 1500 * m2, 60000);
    vstd::arithmetic::div_mod::lemma_div_is_ordered(0, 1500 * m1, 60000);
    lemma_multiply_divide_le(1500 * m2, 60000, 1500);
    assert(1500 * m2 <= 60000 * 1500);
}

/// The difficulty curve, exactly `spawn_interval_of`.
pub fn spawn_interval_ms(time_ms: u64) -> (r: i64)
    ensures
        r == spawn_interval_of(time_ms as int),
        SPAWN_INTERVAL_MIN_MS <= r <= SPAWN_INTERVAL_START_MS,
{
    let capped: u64 = if time_ms > SPAWN_RAMP_MS {
        SPAWN_RAMP_MS
    } else {
        time_ms
    };
    let span: u64 = (SPAWN_INTERVAL_START_MS - SPAWN_INTERVAL_MIN_MS) as u64;
    let scaled: u64 = (span * capped) / SPAWN_RAMP_MS;
    proof {
        lemma_multiply_divide_le((span * capped) as int, SPAWN_RAMP_MS as int, span as int);
        lemma_div_pos_is_pos((span * capped) as int, SPAWN_RAMP_MS as int);
    }
    SPAWN_INTERVAL_START_MS - (scaled as i64)
}

/// A velocity component of magnitude `spd` scaled by `diff / dist`: the
/// share of the speed along one axis when aiming across a displacement
/// whose length is `dist`.  Truncates toward zero.
pub open spec fn aim_scaled(diff: int, spd: int, dist: int) -> int {
    if diff >= 0 {
        (diff * spd) / dist
    } else {
        -((-diff * spd) / dist)
    }
}

/// Computes `aim_scaled`; the result never exceeds the speed, since the
/// displacement component never exceeds the displacement length.
fn aim_component(diff: i64, spd: i64, dist: u64) -> (v: i64)
    requires
        -2_000_000 <= diff <= 2_000_000,
        0 <= spd <= THREAT_SPEED_MAX,
        dist >= AIM_DISTANCE_FLOOR,
        dist <= 10_000_000,
        diff <= dist,
        -(dist as i64) <= diff,
    ensures
        v == aim_scaled(diff as int, spd as int, dist as int),
        -spd <= v <= spd,
{
    if diff >= 0 {
        proof {
            assert(diff * spd <= dist * spd) by (nonlinear_arith)
                requires
                    0 <= diff <= dist,
                    0 <= spd,
            ;
            assert(0 <= diff * spd) by (nonlinear_arith)
                requires
                    0 <= diff,
                    0 <= spd,
            ;
            assert(diff * spd <= 25_000_000_000) by (nonlinear_arith)
                requires
                    0 <= diff <= 10_000_000,
                    0 <= spd <= 2500,
            ;
            lemma_multiply_divide_le(diff as int * spd as int, dist as int, spd as int);
            lemma_div_pos_is_pos(diff as int * spd as int, dist as int);
        }
        let q: u64 = ((diff as u64) * (spd as u64)) / dist;
        q as i64
    } else {
        let neg = -diff;
        proof {
            assert(neg * spd <= dist * spd) by (nonlinear_arith)
                requires
                    0 <= neg <= dist,
                    0 <= spd,
            ;
            assert(0 <= neg * spd) by (nonlinear_arith)
                requires
                    0 <= neg,
                    0 <= spd,
            ;
            assert(neg * spd <= 25_000_000_000) by (nonlinear_arith)
                requires
                    0 <= neg <= 10_000_000,
                    0 <= spd <= 2500,
            ;
            lemma_multiply_divide_le(neg as int * spd as int, dist as int, spd as int);
            lemma_div_pos_is_pos(neg as int * spd as int, dist as int);
        }
        let q: u64 = ((neg as u64) * (spd as u64)) / dist;
        -(q as i64)
    }
}

/// A threat as `spawn_threat` creates it: placed on the spawn circle at a
/// drawn angle, radius and speed drawn from their fixed ranges, velocity
/// aimed at a point jittered around the planet center and normalized by
/// the integer length of the displacement (floored, so the division is
/// never by zero).
pub open spec fn spawned_threat(t: Threat) -> bool {
    &&& THREAT_RADIUS_MIN <= t.radius <= THREAT_RADIUS_MAX
    &&& -THREAT_SPEED_MAX <= t.vx <= THREAT_SPEED_MAX
    &&& -THREAT_SPEED_MAX <= t.vy <= THREAT_SPEED_MAX
    &&& exists|a: int|
        0 <= a < 360 && t.x == CENTER_X + cos_fp(a) * SPAWN_ARM && t.y == CENTER_Y + sin_fp(a)
            * SPAWN_ARM
    &&& exists|tx: int, ty: int, spd: int, d: int| aimed_threat(t, tx, ty, spd, d)
}

/// The velocity of `t` is the drawn speed `spd` aimed from its position
/// toward the jitter point `(tx, ty)`, normalized by `d`, the integer
/// length of the displacement (floored at `AIM_DISTANCE_FLOOR`).
pub open spec fn aimed_threat(t: Threat, tx: int, ty: int, spd: int, d: int) -> bool {
    &&& CENTER_X - AIM_JITTER <= tx <= CENTER_X + AIM_JITTER
    &&& CENTER_Y - AIM_JITTER <= ty <= CENTER_Y + AIM_JITTER
    &&& THREAT_SPEED_MIN <= spd <= THREAT_SPEED_MAX
    &&& 0 <= d
    &&& d * d <= (tx - t.x) * (tx - t.x) + (ty - t.y) * (ty - t.y)
    &&& (tx - t.x) * (tx - t.x) + (ty - t.y) * (ty - t.y) < (d + 1) * (d + 1)
    &&& t.vx == aim_scaled(tx - t.x, spd, max_i(d, AIM_DISTANCE_FLOOR as int))
    &&& t.vy == aim_scaled(ty - t.y, spd, max_i(d, AIM_DISTANCE_FLOOR as int))
}

/// `p` is a particle of some burst at one of the `hits` positions, in
/// the given color.
pub open spec fn burst_at_hits(p: Particle, hits: Seq<(i64, i64)>, color: Color) -> bool {
    exists|j: int|
        0 <= j < hits.len() && exploded_particle(p, hits[j].0 as int, hits[j].1 as int, color)
}

/// Which hit the particle at index `i` belongs to, when bursts of
/// `count` particles are appended per hit, in hit order, from `base`:
/// the block number `(i - base) / count`.
pub open spec fn hit_slot(i: int, base: int, count: int) -> int {
    (i - base) / count
}


/// The clock step of a frame: `d` clamped milliseconds are added to the
/// elapsed time (saturating), nothing else moves.
pub open spec fn clock_rel(pre: GameState, post: GameState, d: int) -> bool {
    &&& post.wf()
    &&& post.time == sat_add_u64(pre.time as int, d)
    &&& post.player == pre.player
    &&& post.score == pre.score
    &&& post.planet_health == pre.planet_health
    &&& post.game_over == pre.game_over
    &&& post.combo == pre.combo
    &&& post.combo_timer == pre.combo_timer
    &&& post.screen_shake == pre.screen_shake
    &&& post.threat_spawn_timer == pre.threat_spawn_timer
    &&& post.threats@ == pre.threats@
    &&& post.projectiles@ == pre.projectiles@
    &&& post.particles@ == pre.particles@
    &&& post.rng == pre.rng
    &&& post.sounds@ == pre.sounds@
}

/// The player-motion step: the angle advances by the angular rate and
/// wraps, nothing else moves.
pub open spec fn player_rel(pre: GameState, post: GameState) -> bool {
    &&& post.wf()
    &&& post.player.angle == wrap_deg(pre.player.angle + pre.player.speed)
    &&& post.player.speed == pre.player.speed
    &&& post.score == pre.score
    &&& post.planet_health == pre.planet_health
    &&& post.time == pre.time
    &&& post.game_over == pre.game_over
    &&& post.combo == pre.combo
    &&& post.combo_timer == pre.combo_timer
    &&& post.screen_shake == pre.screen_shake
    &&& post.threat_spawn_timer == pre.threat_spawn_timer
    &&& post.threats@ == pre.threats@
    &&& post.projectiles@ == pre.projectiles@
    &&& post.particles@ == pre.particles@
    &&& post.rng == pre.rng
    &&& post.sounds@ == pre.sounds@
}

/// The spawning step: the timer burns `d` milliseconds; if it runs out,
/// one spawned threat is appended and the timer rearms from the
/// difficulty curve at the current time; nothing else moves.
pub open spec fn spawn_rel(pre: GameState, post: GameState, d: int) -> bool {
    &&& post.wf()
    &&& pre.threat_spawn_timer - d > 0 ==> {
        &&& post.threat_spawn_timer == pre.threat_spawn_timer - d
        &&& post.threats@ == pre.threats@
        &&& post.rng == pre.rng
    }
    &&& pre.threat_spawn_timer - d <= 0 ==> {
        &&& post.threat_spawn_timer == spawn_interval_of(pre.time as int)
        &&& post.threats@.len() == pre.threats@.len() + 1
        &&& post.threats@.subrange(0, pre.threats@.len() as int) == pre.threats@
        &&& spawned_threat(post.threats@.last())
    }
    &&& post.player == pre.player
    &&& post.score == pre.score
    &&& post.planet_health == pre.planet_health
    &&& post.time == pre.time
    &&& post.game_over == pre.game_over
    &&& post.combo == pre.combo
    &&& post.combo_timer == pre.combo_timer
    &&& post.screen_shake == pre.screen_shake
    &&& post.projectiles@ == pre.projectiles@
    &&& post.particles@ == pre.particles@
    &&& post.sounds@ == pre.sounds@
}

/// The threat step of a frame: threats move and are settled against the
/// planet and the screen margins; each impact drains health, resets the
/// combo and its window, raises the shake, bursts `PLANET_HIT_PARTICLES`
/// particles at its own position (block `hit_slot(i, ..)` of the
/// appended particles) and queues one impact sound; health reaching
/// zero ends the game; every surviving threat is on screen.
pub open spec fn threats_rel(pre: GameState, post: GameState) -> bool {
    let hits = threats_stepped(pre.threats@).1;
    &&& post.wf()
    &&& post.threats@ == threats_stepped(pre.threats@).0
    &&& forall|i: int|
        0 <= i < post.threats@.len() ==> on_screen_at(
            (#[trigger] post.threats@[i]).x as int,
            post.threats@[i].y as int,
            post.threats@[i].radius + THREAT_MARGIN,
        )
    &&& post.planet_health == max_i(
        pre.planet_health - (PLANET_HIT_DAMAGE as int) * hits.len(),
        0,
    )
    &&& post.planet_health <= pre.planet_health
    &&& post.game_over == (pre.game_over || post.planet_health == 0)
    &&& hits.len() > 0 ==> post.combo == 0 && post.combo_timer == 0
    &&& hits.len() == 0 ==> post.combo == pre.combo && post.combo_timer == pre.combo_timer
    &&& post.screen_shake == min_i(
        pre.screen_shake + (PLANET_HIT_SHAKE as int) * hits.len(),
        SHAKE_CAP as int,
    )
    &&& post.particles@.len() == pre.particles@.len() + (PLANET_HIT_PARTICLES as int)
        * hits.len()
    &&& post.particles@.subrange(0, pre.particles@.len() as int) == pre.particles@
    &&& forall|i: int|
        pre.particles@.len() <= i < post.particles@.len() ==> exploded_particle(
            #[trigger] post.particles@[i],
            hits[hit_slot(i, pre.particles@.len() as int, PLANET_HIT_PARTICLES as int)].0 as int,
            hits[hit_slot(i, pre.particles@.len() as int, PLANET_HIT_PARTICLES as int)].1 as int,
            planet_hit_color(),
        )
    &&& forall|i: int|
        pre.particles@.len() <= i < post.particles@.len() ==> burst_at_hits(
            #[trigger] post.particles@[i],
            hits,
            planet_hit_color(),
        )
    &&& post.sounds@.len() == pre.sounds@.len() + hits.len()
    &&& post.sounds@.subrange(0, pre.sounds@.len() as int) == pre.sounds@
    &&& forall|i: int|
        pre.sounds@.len() <= i < post.sounds@.len() ==> #[trigger] post.sounds@[i]
            == Sound::PlanetHit
    &&& post.player == pre.player
    &&& post.score == pre.score
    &&& post.time == pre.time
    &&& post.threat_spawn_timer == pre.threat_spawn_timer
    &&& post.projectiles@ == pre.projectiles@
}

/// The projectile step of a frame: projectiles move; each destroys the
/// first threat it overlaps in collection order, growing the combo,
/// rearming its window, scoring `combo_gain`, raising the shake,
/// bursting `THREAT_KILL_PARTICLES` particles at that threat's position
/// (block `hit_slot(i, ..)` of the appended particles) and queueing one
/// explosion sound; marked threats are purged, so every survivor is one
/// of the entering threats, unchanged; every kept projectile is on
/// screen.
pub open spec fn projectiles_rel(pre: GameState, post: GameState) -> bool {
    let pass = projectiles_stepped(
        pre.projectiles@,
        0,
        pre.threats@,
        Seq::<Projectile>::empty(),
        Seq::<(i64, i64)>::empty(),
    );
    let hits = pass.2;
    &&& post.wf()
    &&& post.projectiles@ == pass.1
    &&& forall|i: int|
        0 <= i < post.projectiles@.len() ==> on_screen_at(
            (#[trigger] post.projectiles@[i]).x as int,
            post.projectiles@[i].y as int,
            post.projectiles@[i].radius + PROJECTILE_MARGIN,
        )
    &&& post.threats@ == alive_threats(pass.0)
    &&& forall|i: int|
        0 <= i < post.threats@.len() ==> threat_among(#[trigger] post.threats@[i], pre.threats@)
    &&& post.combo == min_i(pre.combo + hits.len(), u32::MAX as int)
    &&& post.combo >= pre.combo
    &&& post.score == min_i(
        pre.score + combo_gain(pre.combo as int, hits.len() as int),
        u32::MAX as int,
    )
    &&& post.score >= pre.score
    &&& hits.len() > 0 ==> post.combo_timer == COMBO_WINDOW_MS
    &&& hits.len() == 0 ==> post.combo_timer == pre.combo_timer
    &&& post.screen_shake == min_i(
        pre.screen_shake + (THREAT_KILL_SHAKE as int) * hits.len(),
        SHAKE_CAP as int,
    )
    &&& post.particles@.len() == pre.particles@.len() + (THREAT_KILL_PARTICLES as int)
        * hits.len()
    &&& post.particles@.subrange(0, pre.particles@.len() as int) == pre.particles@
    &&& forall|i: int|
        pre.particles@.len() <= i < post.particles@.len() ==> exploded_particle(
            #[trigger] post.particles@[i],
            hits[hit_slot(i, pre.particles@.len() as int, THREAT_KILL_PARTICLES as int)].0 as int,
            hits[hit_slot(i, pre.particles@.len() as int, THREAT_KILL_PARTICLES as int)].1 as int,
            threat_kill_color(),
        )
    &&& forall|i: int|
        pre.particles@.len() <= i < post.particles@.len() ==> burst_at_hits(
            #[trigger] post.particles@[i],
            hits,
            threat_kill_color(),
        )
    &&& post.sounds@.len() == pre.sounds@.len() + hits.len()
    &&& post.sounds@.subrange(0, pre.sounds@.len() as int) == pre.sounds@
    &&& forall|i: int|
        pre.sounds@.len() <= i < post.sounds@.len() ==> #[trigger] post.sounds@[i]
            == Sound::Explosion
    &&& post.player == pre.player
    &&& post.planet_health == pre.planet_health
    &&& post.time == pre.time
    &&& post.game_over == pre.game_over
    &&& post.threat_spawn_timer == pre.threat_spawn_timer
}

/// The particle-aging step: exactly `particles_stepped`, nothing else
/// moves.
pub open spec fn particles_rel(pre: GameState, post: GameState, d: int) -> bool {
    &&& post.wf()
    &&& post.particles@ == particles_stepped(pre.particles@, d)
    &&& post.player == pre.player
    &&& post.score == pre.score
    &&& post.planet_health == pre.planet_health
    &&& post.time == pre.time
    &&& post.game_over == pre.game_over
    &&& post.combo == pre.combo
    &&& post.combo_timer == pre.combo_timer
    &&& post.screen_shake == pre.screen_shake
    &&& post.threat_spawn_timer == pre.threat_spawn_timer
    &&& post.threats@ == pre.threats@
    &&& post.projectiles@ == pre.projectiles@
    &&& post.rng == pre.rng
    &&& post.sounds@ == pre.sounds@
}

/// The combo-decay step: an open window burns `d` milliseconds; when it
/// closes, the combo resets and the timer clamps at zero; nothing else
/// moves.
pub open spec fn combo_rel(pre: GameState, post: GameState, d: int) -> bool {
    &&& post.wf()
    &&& pre.combo_timer - d > 0 ==> post.combo_timer == pre.combo_timer - d && post.combo
        == pre.combo
    &&& pre.combo_timer - d <= 0 ==> post.combo_timer == 0 && post.combo == 0
    &&& post.player == pre.player
    &&& post.score == pre.score
    &&& post.planet_health == pre.planet_health
    &&& post.time == pre.time
    &&& post.game_over == pre.game_over
    &&& post.screen_shake == pre.screen_shake
    &&& post.threat_spawn_timer == pre.threat_spawn_timer
    &&& post.threats@ == pre.threats@
    &&& post.projectiles@ == pre.projectiles@
    &&& post.particles@ == pre.particles@
    &&& post.rng == pre.rng
    &&& post.sounds@ == pre.sounds@
}

/// The shake-decay step: the shake drops linearly and clamps at zero;
/// nothing else moves.
pub open spec fn shake_rel(pre: GameState, post: GameState, d: int) -> bool {
    &&& post.wf()
    &&& post.screen_shake == max_i(pre.screen_shake - SHAKE_DECAY_PER_MS * d, 0)
    &&& post.player == pre.player
    &&& post.score == pre.score
    &&& post.planet_health == pre.planet_health
    &&& post.time == pre.time
    &&& post.game_over == pre.game_over
    &&& post.combo == pre.combo
    &&& post.combo_timer == pre.combo_timer
    &&& post.threat_spawn_timer == pre.threat_spawn_timer
    &&& post.threats@ == pre.threats@
    &&& post.projectiles@ == pre.projectiles@
    &&& post.particles@ == pre.particles@
    &&& post.rng == pre.rng
    &&& post.sounds@ == pre.sounds@
}

/// The states a running frame passes through, in pipeline order: clock,
/// player motion, threat spawning, threat settling, projectile
/// settling, particle aging, combo decay, shake decay.
pub open spec fn frame_chain(
    s0: GameState,
    s1: GameState,
    s2: GameState,
    s3: GameState,
    s4: GameState,
    s5: GameState,
    s6: GameState,
    s7: GameState,
    s8: GameState,
    d: int,
) -> bool {
    &&& clock_rel(s0, s1, d)
    &&& player_rel(s1, s2)
    &&& spawn_rel(s2, s3, d)
    &&& threats_rel(s3, s4)
    &&& projectiles_rel(s4, s5)
    &&& particles_rel(s5, s6, d)
    &&& combo_rel(s6, s7, d)
    &&& shake_rel(s7, s8, d)
}

/// One frame of a running game is exactly the composition of the eight
/// sub-step relations through seven intermediate states.
pub open spec fn frame_rel(pre: GameState, post: GameState, d: int) -> bool {
    exists|
        s1: GameState,
        s2: GameState,
        s3: GameState,
        s4: GameState,
        s5: GameState,
        s6: GameState,
        s7: GameState,
    | #[trigger] frame_chain(pre, s1, s2, s3, s4, s5, s6, s7, post, d)
}

impl GameState {
    /// One frame: advances the clock by `dt_ms` (clamped to
    /// `MAX_STEP_MS`, so a stalled host cannot destabilize the
    /// integration), then runs the sub-steps in their fixed order:
    /// player motion, threat spawning, threat motion and planet
    /// collision, projectile motion and threat collision, particle
    /// aging, combo decay, shake decay.  `frame_rel` owes exactly that
    /// composition; the remaining clauses are the cross-frame laws it
    /// implies, restated for direct use.  Once the game is over,
    /// `update` leaves every field untouched, whatever `dt_ms` is.
    pub fn update(&mut self, dt_ms: u64)
        requires
            old(self).wf(),
        ensures
            final(self).wf(),
            old(self).game_over ==> GameState::same_state(*final(self), *old(self)),
            final(self).game_over == (old(self).game_over || final(self).planet_health == 0),
            final(self).planet_health <= old(self).planet_health,
            final(self).score >= old(self).score,
            final(self).combo_timer == 0 ==> final(self).combo == 0,
            final(self).combo_timer > 0 ==> final(self).combo >= 1,
            final(self).planet_health == old(self).planet_health && final(self).combo != 0
                ==> final(self).combo >= old(self).combo,
            !old(self).game_over ==> final(self).time == sat_add_u64(
                old(self).time as int,
                min_i(dt_ms as int, MAX_STEP_MS as int),
            ),
            !old(self).game_over ==> final(self).player.speed == old(self).player.speed,
            !old(self).game_over ==> final(self).player.angle == wrap_deg(
                old(self).player.angle + old(self).player.speed,
            ),
            final(self).sounds@.len() >= old(self).sounds@.len(),
            final(self).sounds@.subrange(0, old(self).sounds@.len() as int) == old(self).sounds@,
            final(self).threats@.len() <= old(self).threats@.len() + 1,
            final(self).projectiles@.len() <= old(self).projectiles@.len(),
            !old(self).game_over ==> frame_rel(
                *old(self),
                *final(self),
                min_i(dt_ms as int, MAX_STEP_MS as int),
            ),
            !old(self).game_over ==> forall|i: int|
                0 <= i < final(self).threats@.len() ==> on_screen_at(
                    (#[trigger] final(self).threats@[i]).x as int,
                    final(self).threats@[i].y as int,
                    final(self).threats@[i].radius + THREAT_MARGIN,
                ),
            !old(self).game_over ==> forall|i: int|
                0 <= i < final(self).projectiles@.len() ==> on_screen_at(
                    (#[trigger] final(self).projectiles@[i]).x as int,
                    final(self).projectiles@[i].y as int,
                    final(self).projectiles@[i].radius + PROJECTILE_MARGIN,
                ),
            !old(self).game_over && final(self).planet_health == old(self).planet_health
                && old(self).combo_timer > min_i(dt_ms as int, MAX_STEP_MS as int) ==> final(self).combo >= old(self).combo && final(self).combo_timer > 0,
    {
        if self.game_over {
            proof {
                assert(self.sounds@.subrange(0, self.sounds@.len() as int) =~= self.sounds@);
            }
            return ;
        }
        let d = if dt_ms > MAX_STEP_MS {
            MAX_STEP_MS
        } else {
            dt_ms
        };
        self.time = clock_add(self.time, d);
        let ghost st1 = *self;
        self.update_player();
        let ghost st2 = *self;
        self.spawn_threats(d);
        let ghost st3 = *self;
        let ghost sounds_in = self.sounds@;
        self.update_threats();
        let ghost st4 = *self;
        let ghost sounds_mid = self.sounds@;
        proof {
            lemma_threat_step_never_adds(st3.threats@);
        }
        self.update_projectiles();
        let ghost st5 = *self;
        proof {
            lemma_projectile_pass_counts(
                st4.projectiles@,
                0,
                st4.threats@,
                Seq::<Projectile>::empty(),
                Seq::<(i64, i64)>::empty(),
            );
            lemma_purge_never_adds(
                projectiles_stepped(
                    st4.projectiles@,
                    0,
                    st4.threats@,
                    Seq::<Projectile>::empty(),
                    Seq::<(i64, i64)>::empty(),
                ).0,
            );
        }
        self.update_particles(d);
        let ghost st6 = *self;
        self.update_combo_timer(d);
        let ghost st7 = *self;
        self.update_screen_shake(d);
        proof {
            assert forall|i: int| 0 <= i < sounds_in.len() implies self.sounds@[i]
                == sounds_in[i] by {
                assert(sounds_mid.subrange(0, sounds_in.len() as int)[i] == sounds_in[i]);
                assert(self.sounds@.subrange(0, sounds_mid.len() as int)[i] == sounds_mid[i]);
            }
            assert(self.sounds@.subrange(0, sounds_in.len() as int) =~= sounds_in);
            assert(frame_chain(*old(self), st1, st2, st3, st4, st5, st6, st7, *self, d as int));
            assert forall|i: int|
                0 <= i < self.threats@.len() implies on_screen_at(
                (#[trigger] self.threats@[i]).x as int,
                self.threats@[i].y as int,
                self.threats@[i].radius + THREAT_MARGIN,
            ) by {
                let t = self.threats@[i];
                assert(threat_among(st5.threats@[i], st4.threats@));
                let j = choose|j: int| 0 <= j < st4.threats@.len() && st4.threats@[j] == t;
                assert(on_screen_at(
                    st4.threats@[j].x as int,
                    st4.threats@[j].y as int,
                    st4.threats@[j].radius + THREAT_MARGIN,
                ));
            }
            assert forall|i: int|
                0 <= i < self.projectiles@.len() implies on_screen_at(
                (#[trigger] self.projectiles@[i]).x as int,
                self.projectiles@[i].y as int,
                self.projectiles@[i].radius + PROJECTILE_MARGIN,
            ) by {
                assert(self.projectiles@[i] == st5.projectiles@[i]);
            }
            if self.planet_health == old(self).planet_health && old(self).combo_timer > d {
                let spent = threats_stepped(st3.threats@).1.len() as int;
                assert(st4.planet_health == max_i(
                    st3.planet_health - (PLANET_HIT_DAMAGE as int) * spent,
                    0,
                ));
                assert(spent == 0) by {
                    if spent > 0 {
                        assert((PLANET_HIT_DAMAGE as int) * spent >= 10);
                        assert(st4.planet_health < st3.planet_health);
                    }
                }
                let shot = projectiles_stepped(
                    st4.projectiles@,
                    0,
                    st4.threats@,
                    Seq::<Projectile>::empty(),
                    Seq::<(i64, i64)>::empty(),
                ).2.len();
                if shot > 0 {
                    assert(st5.combo_timer == COMBO_WINDOW_MS);
                } else {
                    assert(st5.combo_timer == old(self).combo_timer);
                }
                assert(st6.combo_timer - d > 0);
                assert(self.combo >= old(self).combo && self.combo_timer > 0);
            }
        }
    }

    /// Advances the player along the orbit by its angular rate and wraps
    /// the angle back into `[0, 360)`.
    pub fn update_player(&mut self)
        requires
            old(self).wf(),
        ensures
            player_rel(*old(self), *final(self)),
    {
        let a = self.player.angle + self.player.speed;
        self.player.angle = if a >= 360 {
            a - 360
        } else if a < 0 {
            a + 360
        } else {
            a
        };
    }

    /// Counts the spawn timer down by `dt_ms`; when it runs out, spawns
    /// one threat and rearms the timer with the interval the difficulty
    /// curve gives for the current time.
    pub fn spawn_threats(&mut self, dt_ms: u64)
        requires
            old(self).wf(),
            dt_ms <= MAX_STEP_MS,
        ensures
            spawn_rel(*old(self), *final(self), dt_ms as int),
    {
        let run_down = self.threat_spawn_timer - (dt_ms as i64);
        if run_down <= 0 {
            self.spawn_threat();
            self.threat_spawn_timer = spawn_interval_ms(self.time);
        } else {
            self.threat_spawn_timer = run_down;
        }
    }

    /// Spawns one threat on the spawn circle, aimed at a jittered point
    /// near the planet center.
    pub fn spawn_threat(&mut self)
        requires
            old(self).wf(),
        ensures
            final(self).wf(),
            final(self).threats@.len() == old(self).threats@.len() + 1,
            final(self).threats@.subrange(0, old(self).threats@.len() as int) == old(self).threats@,
            spawned_threat(final(self).threats@.last()),
            final(self).player == old(self).player,
            final(self).score == old(self).score,
            final(self).planet_health == old(self).planet_health,
            final(self).time == old(self).time,
            final(self).game_over == old(self).game_over,
            final(self).combo == old(self).combo,
            final(self).combo_timer == old(self).combo_timer,
            final(self).screen_shake == old(self).screen_shake,
            final(self).threat_spawn_timer == old(self).threat_spawn_timer,
            final(self).projectiles@ == old(self).projectiles@,
            final(self).particles@ == old(self).particles@,
            final(self).sounds@ == old(self).sounds@,
    {
        let a = self.rng.below(360) as i64;
        let c = cosine(a);
        let s = sine(a);
        let x = CENTER_X + c * SPAWN_ARM;
        let y = CENTER_Y + s * SPAWN_ARM;
        let tx = CENTER_X + self.rng.range_i64(-AIM_JITTER, AIM_JITTER);
        let ty = CENTER_Y + self.rng.range_i64(-AIM_JITTER, AIM_JITTER);
        let dx = tx - x;
        let dy = ty - y;
        proof {
            assert(dx * dx <= 600_000_000_000) by (nonlinear_arith)
                requires
                    -600_000 <= dx <= 600_000,
            ;
            assert(dy * dy <= 600_000_000_000) by (nonlinear_arith)
                requires
                    -600_000 <= dy <= 600_000,
            ;
            assert(0 <= dx * dx && 0 <= dy * dy) by (nonlinear_arith);
        }
        let dd: u64 = (dx * dx + dy * dy) as u64;
        let d = isqrt_u64(dd);
        proof {
            assert(d <= 2_000_000) by (nonlinear_arith)
                requires
                    d * d <= 1_200_000_000_000,
            ;
            assert(dx <= d && -(d as int) <= dx) by (nonlinear_arith)
                requires
                    dx * dx <= dd,
                    dd < (d + 1) * (d + 1),
                    0 <= d,
            ;
            assert(dy <= d && -(d as int) <= dy) by (nonlinear_arith)
                requires
                    dy * dy <= dd,
                    dd < (d + 1) * (d + 1),
                    0 <= d,
            ;
        }
        let dist: u64 = if d < (AIM_DISTANCE_FLOOR as u64) {
            AIM_DISTANCE_FLOOR as u64
        } else {
            d
        };
        let spd = self.rng.range_i64(THREAT_SPEED_MIN, THREAT_SPEED_MAX);
        let vx = aim_component(dx, spd, dist);
        let vy = aim_component(dy, spd, dist);
        let radius = self.rng.range_i64(THREAT_RADIUS_MIN, THREAT_RADIUS_MAX);
        let t = Threat { x, y, vx, vy, radius };
        proof {
            assert(t.x == CENTER_X + cos_fp(a as int) * SPAWN_ARM && t.y == CENTER_Y + sin_fp(
                a as int,
            ) * SPAWN_ARM);
            assert(dist as int == max_i(d as int, AIM_DISTANCE_FLOOR as int));
            assert(aimed_threat(t, tx as int, ty as int, spd as int, d as int));
            assert(spawned_threat(t));
        }
        self.threats.push(t);
    }

    /// Moves every threat and settles planet impacts: a threat that
    /// reaches the planet is removed, drains health, resets the combo
    /// (window included), raises the screen shake, bursts into particles
    /// and queues the impact sound; a threat that drifts off the screen
    /// margins is silently discarded.  Health reaching zero ends the
    /// game for good.
    pub fn update_threats(&mut self)
        requires
            old(self).wf(),
        ensures
            threats_rel(*old(self), *final(self)),
    {
        proof {
            lemma_threat_step_on_screen(self.threats@);
        }
        let (kept, hits) = step_threats(&self.threats);
        self.threats = kept;
        if hits.len() > 0 {
            self.planet_health = health_after(self.planet_health, hits.len());
            self.combo = 0;
            self.combo_timer = 0;
            self.screen_shake = shake_raised(self.screen_shake, PLANET_HIT_SHAKE, hits.len());
            let (grown_particles, grown_sounds) = hit_effects(
                &self.particles,
                &self.sounds,
                &mut self.rng,
                &hits,
                Color { r: 255, g: 100, b: 100 },
                PLANET_HIT_PARTICLES,
                Sound::PlanetHit,
            );
            self.particles = grown_particles;
            self.sounds = grown_sounds;
            if self.planet_health == 0 {
                self.game_over = true;
            }
        } else {
            proof {
                assert(self.particles@.subrange(0, self.particles@.len() as int)
                    =~= self.particles@);
                assert(self.sounds@.subrange(0, self.sounds@.len() as int) =~= self.sounds@);
            }
        }
    }

    /// Moves every projectile and settles its collisions: the first
    /// threat a projectile overlaps (in collection order) is destroyed,
    /// the combo grows by one, the combo window rearms, the hit is worth
    /// `POINTS_BASE` times the new combo (capped at `COMBO_CAP` times),
    /// a burst of particles and an explosion sound are queued and the
    /// projectile is spent; a projectile that misses is kept only while
    /// on screen.  Destroyed threats are purged before the step ends.
    pub fn update_projectiles(&mut self)
        requires
            old(self).wf(),
        ensures
            projectiles_rel(*old(self), *final(self)),
    {
        let ghost entering = self.threats@;
        let (marked, kept, hits) = step_projectiles(&self.projectiles, &self.threats);
        self.projectiles = kept;
        let alive = purge_destroyed(&marked);
        self.threats = alive;
        proof {
            lemma_projectile_pass_on_screen(
                old(self).projectiles@,
                0,
                entering,
                Seq::<Projectile>::empty(),
                Seq::<(i64, i64)>::empty(),
            );
            lemma_projectile_pass_marks_only(
                old(self).projectiles@,
                0,
                entering,
                entering,
                Seq::<Projectile>::empty(),
                Seq::<(i64, i64)>::empty(),
            );
            lemma_projectile_pass_counts(
                old(self).projectiles@,
                0,
                entering,
                Seq::<Projectile>::empty(),
                Seq::<(i64, i64)>::empty(),
            );
            lemma_alive_among(marked@);
            let pass_threats = projectiles_stepped(
                old(self).projectiles@,
                0,
                entering,
                Seq::<Projectile>::empty(),
                Seq::<(i64, i64)>::empty(),
            ).0;
            assert(marked@ == pass_threats);
            assert forall|i: int|
                0 <= i < self.threats@.len() implies threat_among(
                #[trigger] self.threats@[i],
                entering,
            ) by {
                let t = self.threats@[i];
                assert(threat_among(t, marked@));
                let j = choose|j: int| 0 <= j < marked@.len() && marked@[j] == t;
                assert(pass_threats[j] == entering[j] || pass_threats[j] == marked_threat(
                    entering[j],
                ));
                assert(entering[j].wf());
                assert(entering[j] == t);
            }
        }
        if hits.len() > 0 {
            let (combo, score) = combo_and_score(self.combo, self.score, hits.len());
            self.combo = combo;
            self.score = score;
            self.combo_timer = COMBO_WINDOW_MS;
            self.screen_shake = shake_raised(self.screen_shake, THREAT_KILL_SHAKE, hits.len());
            let (grown_particles, grown_sounds) = hit_effects(
                &self.particles,
                &self.sounds,
                &mut self.rng,
                &hits,
                Color { r: 255, g: 200, b: 100 },
                THREAT_KILL_PARTICLES,
                Sound::Explosion,
            );
            self.particles = grown_particles;
            self.sounds = grown_sounds;
        } else {
            proof {
                assert(self.particles@.subrange(0, self.particles@.len() as int)
                    =~= self.particles@);
                assert(self.sounds@.subrange(0, self.sounds@.len() as int) =~= self.sounds@);
                assert(combo_gain(old(self).combo as int, 0) == 0);
            }
        }
    }

    /// Ages every particle by one tick: moves it, damps its velocity,
    /// burns `dt_ms` of lifetime, and discards it once the lifetime is
    /// gone.
    pub fn update_particles(&mut self, dt_ms: u64)
        requires
            old(self).wf(),
            dt_ms <= MAX_STEP_MS,
        ensures
            particles_rel(*old(self), *final(self), dt_ms as int),
    {
        let stepped = step_particles(&self.particles, dt_ms);
        self.particles = stepped;
    }

    /// Burns `dt_ms` off the combo window; when the window closes, the
    /// combo resets to zero and the timer clamps at zero.
    pub fn update_combo_timer(&mut self, dt_ms: u64)
        requires
            old(self).wf(),
            dt_ms <= MAX_STEP_MS,
        ensures
            combo_rel(*old(self), *final(self), dt_ms as int),
    {
        if self.combo_timer > 0 {
            self.combo_timer = self.combo_timer - (dt_ms as i64);
            if self.combo_timer <= 0 {
                self.combo = 0;
                self.combo_timer = 0;
            }
        }
    }

    /// Decays the screen shake linearly toward zero.
    pub fn update_screen_shake(&mut self, dt_ms: u64)
        requires
            old(self).wf(),
            dt_ms <= MAX_STEP_MS,
        ensures
            shake_rel(*old(self), *final(self), dt_ms as int),
    {
        if self.screen_shake > 0 {
            self.screen_shake = self.screen_shake - SHAKE_DECAY_PER_MS * (dt_ms as i64);
            if self.screen_shake < 0 {
                self.screen_shake = 0;
            }
        }
    }
}

/// A threat after one tick: moved by its velocity.
pub open spec fn threat_moved(t: Threat) -> Threat {
    Threat { x: (t.x + t.vx) as i64, y: (t.y + t.vy) as i64, vx: t.vx, vy: t.vy, radius: t.radius }
}

/// One threat pass: every threat moves; one that reaches the planet is
/// removed and its position joins the hit list; one that leaves the
/// screen margins is silently discarded; the rest are kept in order.
pub open spec fn threats_stepped(ts: Seq<Threat>) -> (Seq<Threat>, Seq<(i64, i64)>)
    decreases ts.len(),
{
    if ts.len() == 0 {
        (Seq::empty(), Seq::empty())
    } else {
        let rest = threats_stepped(ts.drop_last());
        let m = threat_moved(ts.last());
        if within_planet(m.x as int, m.y as int) {
            (rest.0, rest.1.push((m.x, m.y)))
        } else if on_screen_at(m.x as int, m.y as int, m.radius + THREAT_MARGIN) {
            (rest.0.push(m), rest.1)
        } else {
            rest
        }
    }
}

/// Phase one of the threat step: computes the survivors and the owed
/// planet hits without touching the state.
fn step_threats(ts: &Vec<Threat>) -> (r: (Vec<Threat>, Vec<(i64, i64)>))
    requires
        threats_wf(ts@),
    ensures
        r.0@ == threats_stepped(ts@).0,
        r.1@ == threats_stepped(ts@).1,
        threats_wf(r.0@),
        forall|i: int|
            0 <= i < r.1@.len() ==> -3_000_000 <= (#[trigger] r.1@[i]).0 <= 3_000_000
                && -3_000_000 <= r.1@[i].1 <= 3_000_000,
{
    let mut kept: Vec<Threat> = Vec::new();
    let mut hits: Vec<(i64, i64)> = Vec::new();
    proof {
        assert(ts@.take(0) =~= Seq::<Threat>::empty());
    }
    let mut i: usize = 0;
    while i < ts.len()
        invariant
            i <= ts@.len(),
            threats_wf(ts@),
            kept@ == threats_stepped(ts@.take(i as int)).0,
            hits@ == threats_stepped(ts@.take(i as int)).1,
            threats_wf(kept@),
            forall|j: int|
                0 <= j < hits@.len() ==> -3_000_000 <= (#[trigger] hits@[j]).0 <= 3_000_000
                    && -3_000_000 <= hits@[j].1 <= 3_000_000,
        decreases ts@.len() - i,
    {
        let t = ts[i];
        assert(t.wf());
        let m = Threat { x: t.x + t.vx, y: t.y + t.vy, vx: t.vx, vy: t.vy, radius: t.radius };
        proof {
            assert(ts@.take(i as int + 1).drop_last() =~= ts@.take(i as int));
            assert(ts@.take(i as int + 1).last() == ts@[i as int]);
            assert(m == threat_moved(ts@[i as int]));
        }
        if is_threat_hitting_planet(&m) {
            hits.push((m.x, m.y));
        } else {
            let margin = m.radius + THREAT_MARGIN;
            if is_on_screen(m.x, m.y, margin) {
                kept.push(m);
            }
        }
        i = i + 1;
    }
    proof {
        assert(ts@.take(ts@.len() as int) =~= ts@);
    }
    (kept, hits)
}

/// `max_i(health - PLANET_HIT_DAMAGE * hits, 0)`: the health after `hits`
/// threats reached the planet, each draining a fixed amount, clamped at
/// zero.
fn health_after(health: i32, hits: usize) -> (r: i32)
    requires
        0 <= health <= FULL_HEALTH,
    ensures
        r == max_i(health - PLANET_HIT_DAMAGE * hits, 0),
        0 <= r <= health,
{
    if hits >= 10 {
        0
    } else {
        let drain = PLANET_HIT_DAMAGE * (hits as i32);
        if health > drain {
            health - drain
        } else {
            0
        }
    }
}

/// `min_i(shake + inc * hits, SHAKE_CAP)`: the shake after `hits` equal
/// increments, clamped at the cap (equal to applying the clamped
/// increments one at a time).
fn shake_raised(shake: i64, inc: u32, hits: usize) -> (r: i64)
    requires
        0 <= shake <= SHAKE_CAP,
    ensures
        r == min_i(shake + (inc as int) * hits, SHAKE_CAP as int),
        0 <= r <= SHAKE_CAP,
{
    proof {
        assert((inc as int) * (hits as int) < 0x1_0000_0000_0000_0000_0000_0000) by (
        nonlinear_arith)
            requires
                0 <= inc < 0x1_0000_0000,
                0 <= hits < 0x1_0000_0000_0000_0000,
        ;
    }
    let total: u128 = (inc as u128) * (hits as u128);
    if total >= (SHAKE_CAP as u128) {
        SHAKE_CAP
    } else {
        let sum = shake + (total as i64);
        if sum > SHAKE_CAP {
            SHAKE_CAP
        } else {
            sum
        }
    }
}

/// Phase two of a collision step: appends one burst of `count` particles
/// in `color` and one `sound` event per hit.
fn hit_effects(
    particles: &Vec<Particle>,
    sounds: &Vec<Sound>,
    rng: &mut Rng,
    hits: &Vec<(i64, i64)>,
    color: Color,
    count: u32,
    sound: Sound,
) -> (r: (Vec<Particle>, Vec<Sound>))
    requires
        particles_wf(particles@),
        count >= 1,
        forall|i: int|
            0 <= i < hits@.len() ==> -3_000_000 <= (#[trigger] hits@[i]).0 <= 3_000_000
                && -3_000_000 <= hits@[i].1 <= 3_000_000,
    ensures
        r.0@.len() == particles@.len() + count * hits@.len(),
        r.0@.subrange(0, particles@.len() as int) == particles@,
        particles_wf(r.0@),
        forall|i: int|
            particles@.len() <= i < r.0@.len() ==> exploded_particle(
                #[trigger] r.0@[i],
                hits@[hit_slot(i, particles@.len() as int, count as int)].0 as int,
                hits@[hit_slot(i, particles@.len() as int, count as int)].1 as int,
                color,
            ),
        forall|i: int|
            particles@.len() <= i < r.0@.len() ==> burst_at_hits(#[trigger] r.0@[i], hits@, color),
        r.1@.len() == sounds@.len() + hits@.len(),
        r.1@.subrange(0, sounds@.len() as int) == sounds@,
        forall|i: int| sounds@.len() <= i < r.1@.len() ==> #[trigger] r.1@[i] == sound,
{
    let mut out_particles = clone_particles(particles);
    let mut out_sounds = clone_sounds(sounds);
    proof {
        assert(out_particles@.subrange(0, particles@.len() as int) =~= particles@);
        assert(out_sounds@.subrange(0, sounds@.len() as int) =~= sounds@);
    }
    let mut j: usize = 0;
    while j < hits.len()
        invariant
            j <= hits@.len(),
            forall|i: int|
                0 <= i < hits@.len() ==> -3_000_000 <= (#[trigger] hits@[i]).0 <= 3_000_000
                    && -3_000_000 <= hits@[i].1 <= 3_000_000,
            out_particles@.len() == particles@.len() + count * j,
            out_particles@.subrange(0, particles@.len() as int) == particles@,
            particles_wf(out_particles@),
            count >= 1,
            forall|i: int|
                particles@.len() <= i < out_particles@.len() ==> exploded_particle(
                    #[trigger] out_particles@[i],
                    hits@[hit_slot(i, particles@.len() as int, count as int)].0 as int,
                    hits@[hit_slot(i, particles@.len() as int, count as int)].1 as int,
                    color,
                ),
            forall|i: int|
                particles@.len() <= i < out_particles@.len() ==> burst_at_hits(
                    #[trigger] out_particles@[i],
                    hits@,
                    color,
                ),
            out_sounds@.len() == sounds@.len() + j,
            out_sounds@.subrange(0, sounds@.len() as int) == sounds@,
            forall|i: int|
                sounds@.len() <= i < out_sounds@.len() ==> #[trigger] out_sounds@[i] == sound,
        decreases hits@.len() - j,
    {
        let (hx, hy) = (hits[j].0, hits[j].1);
        let mut burst = burst_particles(rng, hx, hy, color, count);
        let ghost before = out_particles@;
        let ghost fresh = burst@;
        out_particles.append(&mut burst);
        proof {
            assert((count as int) * (j as int + 1) == (count as int) * (j as int) + count) by (
            nonlinear_arith);
            assert(out_particles@ == before + fresh);
            assert(out_particles@.subrange(0, particles@.len() as int) =~= before.subrange(
                0,
                particles@.len() as int,
            ));
            assert forall|i: int|
                particles@.len() <= i < out_particles@.len() implies burst_at_hits(
                #[trigger] out_particles@[i],
                hits@,
                color,
            ) by {
                if i < before.len() {
                    assert(out_particles@[i] == before[i]);
                } else {
                    assert(out_particles@[i] == fresh[i - before.len()]);
                    assert(exploded_particle(
                        out_particles@[i],
                        hits@[j as int].0 as int,
                        hits@[j as int].1 as int,
                        color,
                    ));
                }
            }
            assert forall|i: int|
                particles@.len() <= i < out_particles@.len() implies exploded_particle(
                #[trigger] out_particles@[i],
                hits@[hit_slot(i, particles@.len() as int, count as int)].0 as int,
                hits@[hit_slot(i, particles@.len() as int, count as int)].1 as int,
                color,
            ) by {
                let base = particles@.len() as int;
                if i < before.len() {
                    assert(out_particles@[i] == before[i]);
                } else {
                    assert(out_particles@[i] == fresh[i - before.len()]);
                    assert(i - base == (j as int) * (count as int) + (i - before.len() as int)) by (
                    nonlinear_arith)
                        requires
                            before.len() == base + (count as int) * (j as int),
                    ;
                    lemma_fundamental_div_mod_converse_div(
                        i - base,
                        count as int,
                        j as int,
                        i - before.len() as int,
                    );
                    assert(hit_slot(i, base, count as int) == j as int);
                    assert(exploded_particle(
                        out_particles@[i],
                        hits@[j as int].0 as int,
                        hits@[j as int].1 as int,
                        color,
                    ));
                }
            }
            assert forall|i: int| 0 <= i < out_particles@.len() implies (
            #[trigger] out_particles@[i]).wf() by {
                if i < before.len() {
                    assert(out_particles@[i] == before[i]);
                } else {
                    assert(out_particles@[i] == fresh[i - before.len()]);
                }
            }
        }
        out_sounds.push(sound);
        proof {
            assert(out_sounds@.subrange(0, sounds@.len() as int) =~= sounds@);
        }
        j = j + 1;
    }
    (out_particles, out_sounds)
}

/// A fresh copy of a particle vector.
fn clone_particles(ps: &Vec<Particle>) -> (r: Vec<Particle>)
    ensures
        r@ == ps@,
{
    let mut r: Vec<Particle> = Vec::new();
    proof {
        assert(r@ =~= ps@.take(0));
    }
    let mut i: usize = 0;
    while i < ps.len()
        invariant
            i <= ps@.len(),
            r@ == ps@.take(i as int),
        decreases ps@.len() - i,
    {
        r.push(ps[i]);
        proof {
            assert(r@ =~= ps@.take(i as int + 1));
        }
        i = i + 1;
    }
    proof {
        assert(ps@.take(ps@.len() as int) =~= ps@);
    }
    r
}

/// A fresh copy of a sound queue.
fn clone_sounds(ss: &Vec<Sound>) -> (r: Vec<Sound>)
    ensures
        r@ == ss@,
{
    let mut r: Vec<Sound> = Vec::new();
    proof {
        assert(r@ =~= ss@.take(0));
    }
    let mut i: usize = 0;
    while i < ss.len()
        invariant
            i <= ss@.len(),
            r@ == ss@.take(i as int),
        decreases ss@.len() - i,
    {
        r.push(ss[i]);
        proof {
            assert(r@ =~= ss@.take(i as int + 1));
        }
        i = i + 1;
    }
    proof {
        assert(ss@.take(ss@.len() as int) =~= ss@);
    }
    r
}

/// A projectile after one tick: moved by its velocity.
pub open spec fn projectile_moved(p: Projectile) -> Projectile {
    Projectile {
        x: (p.x + p.vx) as i64,
        y: (p.y + p.vy) as i64,
        vx: p.vx,
        vy: p.vy,
        radius: p.radius,
    }
}

/// `t` with its radius zeroed: the transient mark for "destroyed in this
/// pass", purged before the pass ends.
pub open spec fn marked_threat(t: Threat) -> Threat {
    Threat { x: t.x, y: t.y, vx: t.vx, vy: t.vy, radius: 0 }
}

/// A threat that is either well-formed or marked as destroyed within the
/// current pass.
pub open spec fn threat_marked_wf(t: Threat) -> bool {
    &&& -ENTITY_BOUND <= t.x <= ENTITY_BOUND
    &&& -ENTITY_BOUND <= t.y <= ENTITY_BOUND
    &&& -THREAT_SPEED_MAX <= t.vx <= THREAT_SPEED_MAX
    &&& -THREAT_SPEED_MAX <= t.vy <= THREAT_SPEED_MAX
    &&& 0 <= t.radius <= THREAT_RADIUS_MAX
}

/// Every threat in the sequence is well-formed up to marking.
pub open spec fn threats_marked_wf(ts: Seq<Threat>) -> bool {
    forall|i: int| 0 <= i < ts.len() ==> threat_marked_wf(#[trigger] ts[i])
}

/// The index of the first threat, scanning from `k` in collection order,
/// that the moved projectile `p` overlaps; `ts.len()` when none does.
/// Ties between threats go to the earlier index, never to the nearer
/// threat.
pub open spec fn first_hit_from(p: Projectile, ts: Seq<Threat>, k: int) -> int
    decreases ts.len() - k,
{
    if k < 0 || k >= ts.len() {
        ts.len() as int
    } else if overlaps(p.x as int, p.y as int, p.radius as int, ts[k].x as int, ts[k].y as int, ts[k].radius as int) {
        k
    } else {
        first_hit_from(p, ts, k + 1)
    }
}

/// One projectile pass, starting at projectile `i` with the threats,
/// kept projectiles and hit positions accumulated so far.  Each
/// projectile moves, then destroys the first threat it overlaps (the
/// threat is marked, its position joins the hit list, the projectile is
/// spent); a projectile that misses is kept only while on screen.
pub open spec fn projectiles_stepped(
    ps: Seq<Projectile>,
    i: int,
    ts: Seq<Threat>,
    kept: Seq<Projectile>,
    hits: Seq<(i64, i64)>,
) -> (Seq<Threat>, Seq<Projectile>, Seq<(i64, i64)>)
    decreases ps.len() - i,
{
    if i < 0 || i >= ps.len() {
        (ts, kept, hits)
    } else {
        let m = projectile_moved(ps[i]);
        let j = first_hit_from(m, ts, 0);
        if j < ts.len() {
            projectiles_stepped(
                ps,
                i + 1,
                ts.update(j, marked_threat(ts[j])),
                kept,
                hits.push((ts[j].x, ts[j].y)),
            )
        } else if on_screen_at(m.x as int, m.y as int, m.radius + PROJECTILE_MARGIN) {
            projectiles_stepped(ps, i + 1, ts, kept.push(m), hits)
        } else {
            projectiles_stepped(ps, i + 1, ts, kept, hits)
        }
    }
}

/// The threats that are not marked as destroyed, in order.
pub open spec fn alive_threats(ts: Seq<Threat>) -> Seq<Threat>
    decreases ts.len(),
{
    if ts.len() == 0 {
        Seq::empty()
    } else {
        let rest = alive_threats(ts.drop_last());
        if ts.last().radius > 0 {
            rest.push(ts.last())
        } else {
            rest
        }
    }
}

/// The points of `k` consecutive destroyed threats on top of a combo of
/// `c`: the `i`-th of them is worth `POINTS_BASE` times the new combo,
/// with the multiplier capped at `COMBO_CAP`.
pub open spec fn combo_gain(c: int, k: int) -> int
    decreases k,
{
    if k <= 0 {
        0
    } else {
        combo_gain(c, k - 1) + (POINTS_BASE as int) * min_i(c + k, COMBO_CAP as int)
    }
}

/// `t` is one of the threats of `ts`, unchanged.
pub open spec fn threat_among(t: Threat, ts: Seq<Threat>) -> bool {
    exists|j: int| 0 <= j < ts.len() && ts[j] == t
}

/// Every threat a threat pass keeps is on screen within its margin:
/// the pass removes whatever is not.
pub proof fn lemma_threat_step_on_screen(ts: Seq<Threat>)
    ensures
        forall|i: int|
            0 <= i < threats_stepped(ts).0.len() ==> on_screen_at(
                (#[trigger] threats_stepped(ts).0[i]).x as int,
                threats_stepped(ts).0[i].y as int,
                threats_stepped(ts).0[i].radius + THREAT_MARGIN,
            ),
    decreases ts.len(),
{
    if ts.len() > 0 {
        lemma_threat_step_on_screen(ts.drop_last());
        let rest = threats_stepped(ts.drop_last()).0;
        let whole = threats_stepped(ts).0;
        let m = threat_moved(ts.last());
        assert forall|i: int|
            0 <= i < whole.len() implies on_screen_at(
            (#[trigger] whole[i]).x as int,
            whole[i].y as int,
            whole[i].radius + THREAT_MARGIN,
        ) by {
            if i < rest.len() {
                assert(whole[i] == rest[i]);
            } else {
                assert(whole[i] == m);
            }
        }
    }
}

/// Every projectile a projectile pass keeps is on screen within its
/// margin, provided the ones accumulated so far are.
pub proof fn lemma_projectile_pass_on_screen(
    ps: Seq<Projectile>,
    i: int,
    ts: Seq<Threat>,
    kept: Seq<Projectile>,
    hits: Seq<(i64, i64)>,
)
    requires
        0 <= i <= ps.len(),
        forall|n: int|
            0 <= n < kept.len() ==> on_screen_at(
                (#[trigger] kept[n]).x as int,
                kept[n].y as int,
                kept[n].radius + PROJECTILE_MARGIN,
            ),
    ensures
        forall|n: int|
            0 <= n < projectiles_stepped(ps, i, ts, kept, hits).1.len() ==> on_screen_at(
                (#[trigger] projectiles_stepped(ps, i, ts, kept, hits).1[n]).x as int,
                projectiles_stepped(ps, i, ts, kept, hits).1[n].y as int,
                projectiles_stepped(ps, i, ts, kept, hits).1[n].radius + PROJECTILE_MARGIN,
            ),
    decreases ps.len() - i,
{
    let res = projectiles_stepped(ps, i, ts, kept, hits);
    if i < ps.len() {
        let m = projectile_moved(ps[i]);
        let j = first_hit_from(m, ts, 0);
        lemma_first_hit_in_range(m, ts, 0);
        if j < ts.len() {
            let marked = ts.update(j, marked_threat(ts[j]));
            let grown = hits.push((ts[j].x, ts[j].y));
            lemma_projectile_pass_on_screen(ps, i + 1, marked, kept, grown);
            assert forall|n: int|
                0 <= n < res.1.len() implies on_screen_at(
                (#[trigger] res.1[n]).x as int,
                res.1[n].y as int,
                res.1[n].radius + PROJECTILE_MARGIN,
            ) by {
                assert(res.1[n] == projectiles_stepped(ps, i + 1, marked, kept, grown).1[n]);
            }
        } else if on_screen_at(m.x as int, m.y as int, m.radius + PROJECTILE_MARGIN) {
            let taken = kept.push(m);
            lemma_projectile_pass_on_screen(ps, i + 1, ts, taken, hits);
            assert forall|n: int|
                0 <= n < res.1.len() implies on_screen_at(
                (#[trigger] res.1[n]).x as int,
                res.1[n].y as int,
                res.1[n].radius + PROJECTILE_MARGIN,
            ) by {
                assert(res.1[n] == projectiles_stepped(ps, i + 1, ts, taken, hits).1[n]);
            }
        } else {
            lemma_projectile_pass_on_screen(ps, i + 1, ts, kept, hits);
            assert forall|n: int|
                0 <= n < res.1.len() implies on_screen_at(
                (#[trigger] res.1[n]).x as int,
                res.1[n].y as int,
                res.1[n].radius + PROJECTILE_MARGIN,
            ) by {
                assert(res.1[n] == projectiles_stepped(ps, i + 1, ts, kept, hits).1[n]);
            }
        }
    } else {
        assert forall|n: int|
            0 <= n < res.1.len() implies on_screen_at(
            (#[trigger] res.1[n]).x as int,
            res.1[n].y as int,
            res.1[n].radius + PROJECTILE_MARGIN,
        ) by {
            assert(res.1[n] == kept[n]);
        }
    }
}

/// A projectile pass leaves every threat either as it entered or as its
/// marked copy: positions and velocities are never touched.
pub proof fn lemma_projectile_pass_marks_only(
    ps: Seq<Projectile>,
    i: int,
    ts: Seq<Threat>,
    base: Seq<Threat>,
    kept: Seq<Projectile>,
    hits: Seq<(i64, i64)>,
)
    requires
        0 <= i <= ps.len(),
        ts.len() == base.len(),
        forall|j: int|
            0 <= j < ts.len() ==> #[trigger] ts[j] == base[j] || ts[j] == marked_threat(base[j]),
    ensures
        forall|j: int|
            0 <= j < projectiles_stepped(ps, i, ts, kept, hits).0.len() ==> #[trigger] projectiles_stepped(
                ps,
                i,
                ts,
                kept,
                hits,
            ).0[j] == base[j] || projectiles_stepped(ps, i, ts, kept, hits).0[j] == marked_threat(
                base[j],
            ),
    decreases ps.len() - i,
{
    lemma_projectile_pass_counts(ps, i, ts, kept, hits);
    let res = projectiles_stepped(ps, i, ts, kept, hits);
    if i < ps.len() {
        let m = projectile_moved(ps[i]);
        let j = first_hit_from(m, ts, 0);
        lemma_first_hit_in_range(m, ts, 0);
        if j < ts.len() {
            let marked = ts.update(j, marked_threat(ts[j]));
            let grown = hits.push((ts[j].x, ts[j].y));
            assert forall|n: int|
                0 <= n < marked.len() implies #[trigger] marked[n] == base[n] || marked[n]
                == marked_threat(base[n]) by {
                if n == j {
                    assert(marked_threat(marked_threat(base[j])) == marked_threat(base[j]));
                }
            }
            lemma_projectile_pass_marks_only(ps, i + 1, marked, base, kept, grown);
            assert forall|n: int|
                0 <= n < res.0.len() implies #[trigger] res.0[n] == base[n] || res.0[n]
                == marked_threat(base[n]) by {
                assert(res.0[n] == projectiles_stepped(ps, i + 1, marked, kept, grown).0[n]);
            }
        } else if on_screen_at(m.x as int, m.y as int, m.radius + PROJECTILE_MARGIN) {
            let taken = kept.push(m);
            lemma_projectile_pass_marks_only(ps, i + 1, ts, base, taken, hits);
            assert forall|n: int|
                0 <= n < res.0.len() implies #[trigger] res.0[n] == base[n] || res.0[n]
                == marked_threat(base[n]) by {
                assert(res.0[n] == projectiles_stepped(ps, i + 1, ts, taken, hits).0[n]);
            }
        } else {
            lemma_projectile_pass_marks_only(ps, i + 1, ts, base, kept, hits);
            assert forall|n: int|
                0 <= n < res.0.len() implies #[trigger] res.0[n] == base[n] || res.0[n]
                == marked_threat(base[n]) by {
                assert(res.0[n] == projectiles_stepped(ps, i + 1, ts, kept, hits).0[n]);
            }
        }
    } else {
        assert forall|n: int|
            0 <= n < res.0.len() implies #[trigger] res.0[n] == base[n] || res.0[n]
            == marked_threat(base[n]) by {
            assert(res.0[n] == ts[n]);
        }
    }
}

/// Purging keeps only unmarked threats, each one of the purged
/// sequence's own entries.
pub proof fn lemma_alive_among(ts: Seq<Threat>)
    ensures
        forall|i: int|
            0 <= i < alive_threats(ts).len() ==> threat_among(
                #[trigger] alive_threats(ts)[i],
                ts,
            ) && alive_threats(ts)[i].radius > 0,
    decreases ts.len(),
{
    if ts.len() > 0 {
        lemma_alive_among(ts.drop_last());
        assert forall|i: int|
            0 <= i < alive_threats(ts).len() implies threat_among(
            #[trigger] alive_threats(ts)[i],
            ts,
        ) && alive_threats(ts)[i].radius > 0 by {
            let t = alive_threats(ts)[i];
            if i < alive_threats(ts.drop_last()).len() {
                assert(threat_among(t, ts.drop_last()));
                let j = choose|j: int| 0 <= j < ts.drop_last().len() && ts.drop_last()[j] == t;
                assert(ts[j] == t);
            } else {
                assert(t == ts.last());
                assert(ts[ts.len() - 1] == t);
            }
        }
    }
}

/// A threat pass never adds a threat: it only moves, removes and
/// discards.
pub proof fn lemma_threat_step_never_adds(ts: Seq<Threat>)
    ensures
        threats_stepped(ts).0.len() <= ts.len(),
    decreases ts.len(),
{
    if ts.len() > 0 {
        lemma_threat_step_never_adds(ts.drop_last());
    }
}

/// Purging marked threats never adds one either.
pub proof fn lemma_purge_never_adds(ts: Seq<Threat>)
    ensures
        alive_threats(ts).len() <= ts.len(),
    decreases ts.len(),
{
    if ts.len() > 0 {
        lemma_purge_never_adds(ts.drop_last());
    }
}

/// The first-hit scan lands between its start and the end of the
/// sequence.
pub proof fn lemma_first_hit_in_range(p: Projectile, ts: Seq<Threat>, k: int)
    requires
        0 <= k <= ts.len(),
    ensures
        k <= first_hit_from(p, ts, k) <= ts.len(),
    decreases ts.len() - k,
{
    if k < ts.len() && !overlaps(
        p.x as int,
        p.y as int,
        p.radius as int,
        ts[k].x as int,
        ts[k].y as int,
        ts[k].radius as int,
    ) {
        lemma_first_hit_in_range(p, ts, k + 1);
    }
}

/// A projectile pass leaves the threat count unchanged (marking only)
/// and keeps at most the projectiles it was given.
pub proof fn lemma_projectile_pass_counts(
    ps: Seq<Projectile>,
    i: int,
    ts: Seq<Threat>,
    kept: Seq<Projectile>,
    hits: Seq<(i64, i64)>,
)
    requires
        0 <= i <= ps.len(),
    ensures
        projectiles_stepped(ps, i, ts, kept, hits).0.len() == ts.len(),
        projectiles_stepped(ps, i, ts, kept, hits).1.len() <= kept.len() + ps.len() - i,
    decreases ps.len() - i,
{
    if i < ps.len() {
        let m = projectile_moved(ps[i]);
        let j = first_hit_from(m, ts, 0);
        lemma_first_hit_in_range(m, ts, 0);
        if j < ts.len() {
            lemma_projectile_pass_counts(
                ps,
                i + 1,
                ts.update(j, marked_threat(ts[j])),
                kept,
                hits.push((ts[j].x, ts[j].y)),
            );
        } else if on_screen_at(m.x as int, m.y as int, m.radius + PROJECTILE_MARGIN) {
            lemma_projectile_pass_counts(ps, i + 1, ts, kept.push(m), hits);
        } else {
            lemma_projectile_pass_counts(ps, i + 1, ts, kept, hits);
        }
    }
}

/// The scoring law: with `k >= 1` threats destroyed on top of a combo
/// of `c`, the last one is worth exactly `POINTS_BASE` times the combo
/// it completes (`c + k`), with the multiplier capped at `COMBO_CAP`;
/// the score grows by exactly one such increment per collision.
pub proof fn lemma_combo_gain_step(c: int, k: int)
    requires
        k >= 1,
    ensures
        combo_gain(c, k) == combo_gain(c, k - 1) + (POINTS_BASE as int) * min_i(
            c + k,
            COMBO_CAP as int,
        ),
{
}

/// Finds the first threat the moved projectile `m` overlaps, in
/// collection order; `ts.len()` when it misses them all.
fn find_first_hit(m: &Projectile, ts: &Vec<Threat>) -> (r: usize)
    requires
        -4_000_000 <= m.x <= 4_000_000,
        -4_000_000 <= m.y <= 4_000_000,
        0 <= m.radius <= 100_000,
        threats_marked_wf(ts@),
    ensures
        r == first_hit_from(*m, ts@, 0),
        r <= ts@.len(),
{
    let mut k: usize = 0;
    while k < ts.len()
        invariant
            k <= ts@.len(),
            -4_000_000 <= m.x <= 4_000_000,
            -4_000_000 <= m.y <= 4_000_000,
            0 <= m.radius <= 100_000,
            threats_marked_wf(ts@),
            first_hit_from(*m, ts@, 0) == first_hit_from(*m, ts@, k as int),
        decreases ts@.len() - k,
    {
        let t = ts[k];
        if check_collision(m.x, m.y, m.radius, t.x, t.y, t.radius) {
            return k;
        }
        k = k + 1;
    }
    ts.len()
}

/// A fresh copy of a threat vector.
fn clone_threats(ts: &Vec<Threat>) -> (r: Vec<Threat>)
    ensures
        r@ == ts@,
{
    let mut r: Vec<Threat> = Vec::new();
    proof {
        assert(r@ =~= ts@.take(0));
    }
    let mut i: usize = 0;
    while i < ts.len()
        invariant
            i <= ts@.len(),
            r@ == ts@.take(i as int),
        decreases ts@.len() - i,
    {
        r.push(ts[i]);
        proof {
            assert(r@ =~= ts@.take(i as int + 1));
        }
        i = i + 1;
    }
    proof {
        assert(ts@.take(ts@.len() as int) =~= ts@);
    }
    r
}

/// Phase one of the projectile step: runs the pass over a working copy
/// of the threats, without touching the state.
fn step_projectiles(ps: &Vec<Projectile>, ts0: &Vec<Threat>) -> (r: (
    Vec<Threat>,
    Vec<Projectile>,
    Vec<(i64, i64)>,
))
    requires
        projectiles_wf(ps@),
        threats_wf(ts0@),
    ensures
        (r.0@, r.1@, r.2@) == projectiles_stepped(
            ps@,
            0,
            ts0@,
            Seq::<Projectile>::empty(),
            Seq::<(i64, i64)>::empty(),
        ),
        threats_marked_wf(r.0@),
        projectiles_wf(r.1@),
        forall|i: int|
            0 <= i < r.2@.len() ==> -3_000_000 <= (#[trigger] r.2@[i]).0 <= 3_000_000
                && -3_000_000 <= r.2@[i].1 <= 3_000_000,
{
    let mut ts = clone_threats(ts0);
    let mut kept: Vec<Projectile> = Vec::new();
    let mut hits: Vec<(i64, i64)> = Vec::new();
    proof {
        assert(kept@ =~= Seq::<Projectile>::empty());
        assert(hits@ =~= Seq::<(i64, i64)>::empty());
        assert(threats_marked_wf(ts@));
    }
    let mut i: usize = 0;
    while i < ps.len()
        invariant
            i <= ps@.len(),
            projectiles_wf(ps@),
            threats_marked_wf(ts@),
            projectiles_wf(kept@),
            forall|n: int|
                0 <= n < hits@.len() ==> -3_000_000 <= (#[trigger] hits@[n]).0 <= 3_000_000
                    && -3_000_000 <= hits@[n].1 <= 3_000_000,
            projectiles_stepped(ps@, i as int, ts@, kept@, hits@) == projectiles_stepped(
                ps@,
                0,
                ts0@,
                Seq::<Projectile>::empty(),
                Seq::<(i64, i64)>::empty(),
            ),
        decreases ps@.len() - i,
    {
        let ghost pre_ts = ts@;
        let ghost pre_kept = kept@;
        let ghost pre_hits = hits@;
        let p = ps[i];
        assert(p.wf());
        let m = Projectile { x: p.x + p.vx, y: p.y + p.vy, vx: p.vx, vy: p.vy, radius: p.radius };
        proof {
            assert(m == projectile_moved(ps@[i as int]));
        }
        let hit = find_first_hit(&m, &ts);
        if hit < ts.len() {
            let t = ts[hit];
            hits.push((t.x, t.y));
            ts[hit] = Threat { x: t.x, y: t.y, vx: t.vx, vy: t.vy, radius: 0 };
            proof {
                assert(ts@ =~= pre_ts.update(hit as int, marked_threat(pre_ts[hit as int])));
            }
        } else {
            let margin = m.radius + PROJECTILE_MARGIN;
            if is_on_screen(m.x, m.y, margin) {
                kept.push(m);
            }
        }
        proof {
            assert(projectiles_stepped(ps@, i as int, pre_ts, pre_kept, pre_hits)
                == projectiles_stepped(ps@, i as int + 1, ts@, kept@, hits@));
        }
        i = i + 1;
    }
    proof {
        assert(projectiles_stepped(ps@, ps@.len() as int, ts@, kept@, hits@) == (
            ts@,
            kept@,
            hits@,
        ));
    }
    (ts, kept, hits)
}

/// Removes the threats marked as destroyed; no marked threat survives a
/// pass.
fn purge_destroyed(ts: &Vec<Threat>) -> (r: Vec<Threat>)
    requires
        threats_marked_wf(ts@),
    ensures
        r@ == alive_threats(ts@),
        threats_wf(r@),
{
    let mut r: Vec<Threat> = Vec::new();
    proof {
        assert(ts@.take(0) =~= Seq::<Threat>::empty());
    }
    let mut i: usize = 0;
    while i < ts.len()
        invariant
            i <= ts@.len(),
            threats_marked_wf(ts@),
            r@ == alive_threats(ts@.take(i as int)),
            threats_wf(r@),
        decreases ts@.len() - i,
    {
        let t = ts[i];
        proof {
            assert(ts@.take(i as int + 1).drop_last() =~= ts@.take(i as int));
            assert(ts@.take(i as int + 1).last() == ts@[i as int]);
            assert(threat_marked_wf(ts@[i as int]));
        }
        if t.radius > 0 {
            r.push(t);
        }
        i = i + 1;
    }
    proof {
        assert(ts@.take(ts@.len() as int) =~= ts@);
    }
    r
}

/// Applies `k` consecutive hits to the combo and the score: the combo
/// grows by one per hit (saturating), and each hit is worth
/// `POINTS_BASE` times the new combo, capped at `COMBO_CAP` times; the
/// score saturates rather than wrap.
fn combo_and_score(c0: u32, score0: u32, k: usize) -> (r: (u32, u32))
    ensures
        r.0 == min_i(c0 + k, u32::MAX as int),
        r.1 == min_i(score0 + combo_gain(c0 as int, k as int), u32::MAX as int),
        r.0 >= c0,
        r.1 >= score0,
{
    let mut combo = c0;
    let mut score = score0;
    let mut i: usize = 0;
    while i < k
        invariant
            i <= k,
            combo == min_i(c0 + i, u32::MAX as int),
            score == min_i(score0 + combo_gain(c0 as int, i as int), u32::MAX as int),
            combo >= c0,
            score >= score0,
        decreases k - i,
    {
        combo = if combo < u32::MAX {
            combo + 1
        } else {
            combo
        };
        let mult = if combo < COMBO_CAP {
            combo
        } else {
            COMBO_CAP
        };
        let points = POINTS_BASE * mult;
        proof {
            assert(mult == min_i(c0 + (i + 1), COMBO_CAP as int));
            assert(combo_gain(c0 as int, i as int + 1) == combo_gain(c0 as int, i as int) + (
            POINTS_BASE as int) * min_i(c0 + (i + 1), COMBO_CAP as int));
        }
        score = score_add(score, points);
        i = i + 1;
    }
    (combo, score)
}

/// The damping `v := v * FRICTION_NUM / FRICTION_DEN`, truncating toward
/// zero so that the magnitude never grows.
pub open spec fn fric(v: int) -> int {
    if v >= 0 {
        (98 * v) / 100
    } else {
        -((98 * -v) / 100)
    }
}

/// Computes `fric`.
fn friction(v: i64) -> (r: i64)
    requires
        -1_000_000 <= v <= 1_000_000,
    ensures
        r == fric(v as int),
        v >= 0 ==> 0 <= r <= v,
        v < 0 ==> v <= r <= 0,
{
    if v >= 0 {
        proof {
            assert(98 * v <= 100 * v);
            lemma_multiply_divide_le(98 * v as int, 100, v as int);
            lemma_div_pos_is_pos(98 * v as int, 100);
        }
        let q: u64 = (98 * (v as u64)) / 100;
        q as i64
    } else {
        let n = -v;
        proof {
            assert(98 * n <= 100 * n);
            lemma_multiply_divide_le(98 * n as int, 100, n as int);
            lemma_div_pos_is_pos(98 * n as int, 100);
        }
        let q: u64 = (98 * (n as u64)) / 100;
        -(q as i64)
    }
}

/// One integration step of a position component, clamped at the numeric
/// rim of the field model.
fn clamp_add(x: i64, v: i64) -> (r: i64)
    requires
        -POSITION_LIMIT <= x <= POSITION_LIMIT,
        -1_000_000 <= v <= 1_000_000,
    ensures
        r == clamp_i(x + v, -POSITION_LIMIT as int, POSITION_LIMIT as int),
{
    let s = x + v;
    if s < -POSITION_LIMIT {
        -POSITION_LIMIT
    } else if s > POSITION_LIMIT {
        POSITION_LIMIT
    } else {
        s
    }
}

/// A particle after one tick of `dt_ms` milliseconds: moved by its
/// velocity (saturating at the numeric rim), velocity damped, lifetime
/// burned down.
pub open spec fn particle_moved(p: Particle, dt_ms: int) -> Particle {
    Particle {
        x: clamp_i(p.x + p.vx, -POSITION_LIMIT as int, POSITION_LIMIT as int) as i64,
        y: clamp_i(p.y + p.vy, -POSITION_LIMIT as int, POSITION_LIMIT as int) as i64,
        vx: fric(p.vx as int) as i64,
        vy: fric(p.vy as int) as i64,
        size: p.size,
        lifetime: (p.lifetime - PARTICLE_DECAY_PER_MS * dt_ms) as i64,
        max_lifetime: p.max_lifetime,
        color: p.color,
    }
}

/// The particles that survive one aging pass, in order: each is moved,
/// and kept exactly while its remaining lifetime is positive.
pub open spec fn particles_stepped(ps: Seq<Particle>, dt_ms: int) -> Seq<Particle>
    decreases ps.len(),
{
    if ps.len() == 0 {
        Seq::empty()
    } else {
        let rest = particles_stepped(ps.drop_last(), dt_ms);
        let m = particle_moved(ps.last(), dt_ms);
        if m.lifetime > 0 {
            rest.push(m)
        } else {
            rest
        }
    }
}

/// Ages a particle vector by one tick; the two-phase shape of the pass:
/// the survivors are computed into a fresh vector, nothing is mutated
/// while walking.
fn step_particles(ps: &Vec<Particle>, dt_ms: u64) -> (r: Vec<Particle>)
    requires
        particles_wf(ps@),
        dt_ms <= MAX_STEP_MS,
    ensures
        r@ == particles_stepped(ps@, dt_ms as int),
        particles_wf(r@),
{
    let mut r: Vec<Particle> = Vec::new();
    proof {
        assert(ps@.take(0) =~= Seq::<Particle>::empty());
    }
    let mut i: usize = 0;
    while i < ps.len()
        invariant
            i <= ps@.len(),
            particles_wf(ps@),
            dt_ms <= MAX_STEP_MS,
            r@ == particles_stepped(ps@.take(i as int), dt_ms as int),
            particles_wf(r@),
        decreases ps@.len() - i,
    {
        let p = ps[i];
        assert(p.wf());
        let m = Particle {
            x: clamp_add(p.x, p.vx),
            y: clamp_add(p.y, p.vy),
            vx: friction(p.vx),
            vy: friction(p.vy),
            size: p.size,
            lifetime: p.lifetime - PARTICLE_DECAY_PER_MS * (dt_ms as i64),
            max_lifetime: p.max_lifetime,
            color: p.color,
        };
        proof {
            assert(ps@.take(i as int + 1).drop_last() =~= ps@.take(i as int));
            assert(ps@.take(i as int + 1).last() == ps@[i as int]);
            assert(m == particle_moved(ps@[i as int], dt_ms as int));
        }
        if m.lifetime > 0 {
            r.push(m);
        }
        i = i + 1;
    }
    proof {
        assert(ps@.take(ps@.len() as int) =~= ps@);
    }
    r
}

} // verus!

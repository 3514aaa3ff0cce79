//! The mutation API: constructor, shooting, explosions, screen shake.

use orbital_guardian::entities::Color;
use orbital_guardian::sound::Sound;
use orbital_guardian::state::GameState;

#[test]
fn fresh_state_has_the_documented_values() {
    let s = GameState::new();
    assert_eq!(s.player.angle, 0);
    assert_eq!(s.player.speed, 1);
    assert!(s.threats.is_empty());
    assert!(s.projectiles.is_empty());
    assert!(s.particles.is_empty());
    assert_eq!(s.score, 0);
    assert_eq!(s.planet_health, 100);
    assert_eq!(s.time, 0);
    assert!(!s.game_over);
    assert_eq!(s.combo, 0);
    assert_eq!(s.combo_timer, 0);
    assert_eq!(s.screen_shake, 0);
    assert_eq!(s.threat_spawn_timer, 2000);
    assert!(s.sounds.is_empty());
}

#[test]
fn one_shot_spawns_one_projectile_on_the_muzzle() {
    // Fresh state: angle 0, so the ship sits at (550, 300) and fires
    // straight along +x at 8 units per tick.
    let mut s = GameState::new();
    s.shoot();
    assert_eq!(s.projectiles.len(), 1);
    let p = s.projectiles[0];
    assert_eq!(p.x, 550_000);
    assert_eq!(p.y, 300_000);
    assert_eq!(p.vx, 8_000);
    assert_eq!(p.vy, 0);
    assert_eq!(p.radius, 5_000);
    // Velocity magnitude is exactly the muzzle speed here.
    assert_eq!(p.vx * p.vx + p.vy * p.vy, 8_000 * 8_000);
    assert_eq!(s.sounds, vec![Sound::Shoot]);
}

#[test]
fn shot_direction_follows_the_facing_angle() {
    let mut s = GameState::new();
    s.player.angle = 90;
    s.shoot();
    let p = s.projectiles[0];
    assert_eq!(p.x, 400_000);
    assert_eq!(p.y, 450_000);
    assert_eq!(p.vx, 0);
    assert_eq!(p.vy, 8_000);
}

#[test]
fn shooting_after_game_over_does_nothing() {
    let mut s = GameState::new();
    s.game_over = true;
    s.shoot();
    assert!(s.projectiles.is_empty());
    assert!(s.sounds.is_empty());
}

#[test]
fn explosion_creates_exactly_count_full_life_particles() {
    let mut s = GameState::new();
    s.create_explosion(400_000, 300_000, Color { r: 1, g: 2, b: 3 }, 10);
    assert_eq!(s.particles.len(), 10);
    for p in &s.particles {
        assert_eq!(p.x, 400_000);
        assert_eq!(p.y, 300_000);
        assert_eq!(p.lifetime, 1000);
        assert_eq!(p.max_lifetime, 1000);
        assert_eq!(p.color, Color { r: 1, g: 2, b: 3 });
        assert!(p.vx.abs() <= 4_500);
        assert!(p.vy.abs() <= 4_500);
        assert!(0 < p.size && p.size <= 4_000);
    }
    assert_eq!(s.sounds, vec![Sound::Explosion]);
}

#[test]
fn explosion_particles_age_out_and_vanish() {
    let mut s = GameState::new();
    s.create_explosion(100_000, 100_000, Color { r: 9, g: 9, b: 9 }, 10);
    // Lifetime 1000 ms burns at 2 per ms of frame time: two 250 ms
    // frames take it to exactly 0, where the particle is discarded.
    s.update_particles(250);
    assert_eq!(s.particles.len(), 10);
    for p in &s.particles {
        assert_eq!(p.lifetime, 500);
    }
    s.update_particles(250);
    assert!(s.particles.is_empty());
}

#[test]
fn particle_friction_damps_velocity() {
    let mut s = GameState::new();
    s.create_explosion(100_000, 100_000, Color { r: 9, g: 9, b: 9 }, 25);
    let speeds: Vec<(i64, i64)> = s.particles.iter().map(|p| (p.vx, p.vy)).collect();
    s.update_particles(1);
    for (p, (vx0, vy0)) in s.particles.iter().zip(speeds.iter()) {
        assert_eq!(p.vx, vx0 * 98 / 100);
        assert_eq!(p.vy, vy0 * 98 / 100);
        assert!(p.vx.abs() <= vx0.abs());
        assert!(p.vy.abs() <= vy0.abs());
    }
}

#[test]
fn screen_shake_clamps_at_the_cap() {
    let mut s = GameState::new();
    s.add_screen_shake(9_000);
    assert_eq!(s.screen_shake, 9_000);
    s.add_screen_shake(9_000);
    assert_eq!(s.screen_shake, 15_000);
}

#[test]
fn heavy_shake_emits_the_impact_sound() {
    let mut s = GameState::new();
    s.add_screen_shake(5_000);
    assert!(s.sounds.is_empty());
    s.add_screen_shake(5_001);
    assert_eq!(s.sounds, vec![Sound::PlanetHit]);
}

#[test]
fn shake_decays_linearly_to_zero() {
    let mut s = GameState::new();
    s.add_screen_shake(6_000);
    s.update_screen_shake(250);
    assert_eq!(s.screen_shake, 4_750);
    s.update_screen_shake(250);
    s.update_screen_shake(250);
    s.update_screen_shake(250);
    assert_eq!(s.screen_shake, 1_000);
    s.update_screen_shake(250);
    assert_eq!(s.screen_shake, 0);
    s.update_screen_shake(250);
    assert_eq!(s.screen_shake, 0);
}

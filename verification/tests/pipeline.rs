//! Frame pipeline scenarios: planet hits, projectile kills, combo and
//! score bookkeeping, spawning, and the terminal game-over state.

use orbital_guardian::entities::Projectile;
use orbital_guardian::entities::Threat;
use orbital_guardian::sound::Sound;
use orbital_guardian::state::GameState;
use orbital_guardian::systems::spawn_interval_ms;

fn threat_at(x: i64, y: i64) -> Threat {
    Threat { x, y, vx: 0, vy: 0, radius: 15_000 }
}

fn projectile_at(x: i64, y: i64) -> Projectile {
    Projectile { x, y, vx: 0, vy: 0, radius: 5_000 }
}

#[test]
fn threat_at_planet_center_is_settled_as_an_impact() {
    let mut s = GameState::new();
    s.threats.push(threat_at(400_000, 300_000));
    s.update_threats();
    assert!(s.threats.is_empty());
    assert_eq!(s.planet_health, 90);
    assert_eq!(s.combo, 0);
    assert_eq!(s.combo_timer, 0);
    assert_eq!(s.screen_shake, 6_000);
    assert_eq!(s.particles.len(), 20);
    assert_eq!(s.sounds, vec![Sound::PlanetHit]);
    assert!(!s.game_over);
}

#[test]
fn threat_motion_integrates_velocity() {
    let mut s = GameState::new();
    s.threats.push(Threat { x: 100_000, y: 200_000, vx: 2_000, vy: -1_500, radius: 15_000 });
    s.update_threats();
    assert_eq!(s.threats.len(), 1);
    assert_eq!(s.threats[0].x, 102_000);
    assert_eq!(s.threats[0].y, 198_500);
    assert_eq!(s.planet_health, 100);
}

#[test]
fn threat_off_the_margins_is_silently_discarded() {
    let mut s = GameState::new();
    // Margin is radius + 160 units; x = -176 units is one past it.
    s.threats.push(Threat { x: -175_500, y: 300_000, vx: -500, vy: 0, radius: 15_000 });
    s.update_threats();
    assert!(s.threats.is_empty());
    assert_eq!(s.planet_health, 100);
    assert_eq!(s.score, 0);
    assert!(s.sounds.is_empty());
    assert!(s.particles.is_empty());
}

#[test]
fn last_hit_zeroes_health_and_ends_the_game() {
    let mut s = GameState::new();
    s.planet_health = 10;
    s.threats.push(threat_at(400_000, 300_000));
    s.update_threats();
    assert_eq!(s.planet_health, 0);
    assert!(s.game_over);
}

#[test]
fn finished_game_ignores_further_updates() {
    let mut s = GameState::new();
    s.planet_health = 10;
    s.threats.push(threat_at(400_000, 300_000));
    s.shoot();
    s.update(16);
    assert!(s.game_over);
    let player = s.player;
    let threats = s.threats.clone();
    let projectiles = s.projectiles.clone();
    let particles = s.particles.clone();
    let scalars = (
        s.score,
        s.planet_health,
        s.time,
        s.combo,
        s.combo_timer,
        s.screen_shake,
        s.threat_spawn_timer,
    );
    let rng = s.rng;
    let sounds = s.sounds.clone();
    for dt in [0, 16, 250, 100_000] {
        s.update(dt);
        assert_eq!(s.player, player);
        assert_eq!(s.threats, threats);
        assert_eq!(s.projectiles, projectiles);
        assert_eq!(s.particles, particles);
        assert_eq!(
            (
                s.score,
                s.planet_health,
                s.time,
                s.combo,
                s.combo_timer,
                s.screen_shake,
                s.threat_spawn_timer,
            ),
            scalars,
        );
        assert_eq!(s.rng, rng);
        assert_eq!(s.sounds, sounds);
        assert!(s.game_over);
    }
}

#[test]
fn health_never_rises_over_a_long_run() {
    let mut s = GameState::new();
    s.shoot();
    let mut last = s.planet_health;
    for _ in 0..2_000 {
        s.update(16);
        assert!(s.planet_health <= last);
        assert!(s.planet_health >= 0);
        if s.planet_health == 0 {
            assert!(s.game_over);
        }
        last = s.planet_health;
    }
}

#[test]
fn first_kill_scores_base_points_and_opens_the_combo_window() {
    let mut s = GameState::new();
    s.threats.push(threat_at(100_000, 100_000));
    s.projectiles.push(projectile_at(110_000, 100_000));
    s.update_projectiles();
    assert!(s.threats.is_empty());
    assert!(s.projectiles.is_empty());
    assert_eq!(s.combo, 1);
    assert_eq!(s.score, 10);
    assert_eq!(s.combo_timer, 2_000);
    assert_eq!(s.screen_shake, 2_000);
    assert_eq!(s.particles.len(), 15);
    assert_eq!(s.sounds, vec![Sound::Explosion]);
    assert_eq!(s.planet_health, 100);
}

#[test]
fn two_kills_in_one_pass_score_rising_increments() {
    let mut s = GameState::new();
    s.threats.push(threat_at(100_000, 100_000));
    s.threats.push(threat_at(300_000, 100_000));
    s.projectiles.push(projectile_at(110_000, 100_000));
    s.projectiles.push(projectile_at(310_000, 100_000));
    s.update_projectiles();
    assert!(s.threats.is_empty());
    assert_eq!(s.combo, 2);
    // 10 * 1 for the first kill, 10 * 2 for the second.
    assert_eq!(s.score, 30);
    assert_eq!(s.particles.len(), 30);
    assert_eq!(s.sounds, vec![Sound::Explosion, Sound::Explosion]);
    // One burst of 15 per hit, in hit order, each at its own threat.
    for (i, p) in s.particles.iter().enumerate() {
        let (hx, hy) = if i < 15 { (100_000, 100_000) } else { (300_000, 100_000) };
        assert_eq!((p.x, p.y), (hx, hy));
    }
}

#[test]
fn combo_multiplier_caps_at_ten() {
    let mut s = GameState::new();
    s.combo = 12;
    s.combo_timer = 1_500;
    s.threats.push(threat_at(100_000, 100_000));
    s.projectiles.push(projectile_at(110_000, 100_000));
    s.update_projectiles();
    assert_eq!(s.combo, 13);
    assert_eq!(s.score, 100);
}

#[test]
fn a_projectile_spends_itself_on_the_first_threat_in_order() {
    let mut s = GameState::new();
    // Two overlapping threats; the projectile overlaps both, and the
    // earlier index wins, not the nearer center.
    s.threats.push(threat_at(120_000, 100_000));
    s.threats.push(threat_at(108_000, 100_000));
    s.projectiles.push(projectile_at(106_000, 100_000));
    s.update_projectiles();
    assert_eq!(s.combo, 1);
    assert_eq!(s.threats.len(), 1);
    assert_eq!(s.threats[0].x, 108_000);
}

#[test]
fn missing_projectile_flies_on_and_leaves_the_screen() {
    let mut s = GameState::new();
    s.projectiles.push(Projectile { x: 100_000, y: 100_000, vx: 8_000, vy: 0, radius: 5_000 });
    s.update_projectiles();
    assert_eq!(s.projectiles.len(), 1);
    assert_eq!(s.projectiles[0].x, 108_000);
    assert_eq!(s.score, 0);
    assert_eq!(s.combo, 0);
    // One just inside the margin, moving out: gone next step.
    s.projectiles.push(Projectile { x: 811_000, y: 300_000, vx: 8_000, vy: 0, radius: 5_000 });
    s.update_projectiles();
    assert_eq!(s.projectiles.len(), 1);
    assert_eq!(s.projectiles[0].x, 116_000);
}

#[test]
fn combo_expires_when_the_window_closes() {
    let mut s = GameState::new();
    s.threats.push(threat_at(100_000, 100_000));
    s.projectiles.push(projectile_at(110_000, 100_000));
    s.update_projectiles();
    assert_eq!(s.combo, 1);
    assert_eq!(s.combo_timer, 2_000);
    for _ in 0..7 {
        s.update_combo_timer(250);
        assert_eq!(s.combo, 1);
        assert!(s.combo_timer > 0);
    }
    s.update_combo_timer(250);
    assert_eq!(s.combo, 0);
    assert_eq!(s.combo_timer, 0);
}

#[test]
fn planet_hit_resets_a_running_combo() {
    let mut s = GameState::new();
    s.threats.push(threat_at(100_000, 100_000));
    s.projectiles.push(projectile_at(110_000, 100_000));
    s.update_projectiles();
    assert_eq!(s.combo, 1);
    s.threats.push(threat_at(400_000, 300_000));
    s.update_threats();
    assert_eq!(s.combo, 0);
    assert_eq!(s.combo_timer, 0);
    assert_eq!(s.score, 10);
}

#[test]
fn player_angle_wraps_at_the_full_turn() {
    let mut s = GameState::new();
    s.player.angle = 359;
    s.player.speed = 2;
    s.update_player();
    assert_eq!(s.player.angle, 1);
    s.player.speed = -2;
    s.update_player();
    assert_eq!(s.player.angle, 359);
}

#[test]
fn frame_time_is_clamped_and_the_clock_advances() {
    let mut s = GameState::new();
    s.update(16);
    assert_eq!(s.time, 16);
    assert_eq!(s.player.angle, 1);
    assert_eq!(s.threat_spawn_timer, 2_000 - 16);
    s.update(100_000);
    assert_eq!(s.time, 16 + 250);
}

#[test]
fn spawn_timer_runs_out_and_a_threat_appears() {
    let mut s = GameState::with_seed(7);
    for _ in 0..7 {
        s.update(250);
        assert!(s.threats.is_empty());
    }
    s.update(250);
    assert_eq!(s.threats.len(), 1);
    // Timer rearmed from the difficulty curve at the current time.
    assert_eq!(s.time, 2_000);
    assert_eq!(s.threat_spawn_timer, spawn_interval_ms(2_000));
    let t = s.threats[0];
    assert!((12_000..=18_000).contains(&t.radius));
    assert!(t.vx.abs() <= 2_500);
    assert!(t.vy.abs() <= 2_500);
    // On the spawn circle: 480 units from the field center, up to the
    // rounding of the fixed-point trig.
    let dx = t.x - 400_000;
    let dy = t.y - 300_000;
    let rr = dx * dx + dy * dy;
    assert!((220_000_000_000..=232_000_000_000).contains(&rr), "off the spawn circle: {rr}");
    // Aimed inward: it converges on the planet rather than drifting.
    assert!(t.vx != 0 || t.vy != 0);
}

#[test]
fn spawned_threats_reach_the_planet_without_interception() {
    let mut s = GameState::with_seed(42);
    let mut frames = 0;
    while !s.game_over && frames < 40_000 {
        s.update(16);
        frames += 1;
    }
    assert!(s.game_over, "threats never brought the planet down");
    assert_eq!(s.planet_health, 0);
}

#[test]
fn full_frames_tick_every_subsystem_together() {
    let mut s = GameState::new();
    s.threats.push(threat_at(100_000, 100_000));
    s.projectiles.push(projectile_at(110_000, 100_000));
    s.update(100);
    // The kill happened inside the frame: score, combo, burst, sound.
    assert_eq!(s.score, 10);
    assert_eq!(s.combo, 1);
    // The window already burned 100 ms of this frame's decay step.
    assert_eq!(s.combo_timer, 1_900);
    assert_eq!(s.particles.len(), 15);
    assert_eq!(s.sounds, vec![Sound::Explosion]);
    assert_eq!(s.time, 100);
    assert_eq!(s.player.angle, 1);
}

#[test]
fn zero_elapsed_time_still_moves_entities_but_no_timers() {
    let mut s = GameState::new();
    s.update(0);
    // Motion is per tick; timers burn elapsed milliseconds.
    assert_eq!(s.player.angle, 1);
    assert_eq!(s.time, 0);
    assert_eq!(s.threat_spawn_timer, 2_000);
}

#[test]
fn two_impacts_in_one_pass_drain_twice_and_queue_twice() {
    let mut s = GameState::new();
    s.threats.push(threat_at(400_000, 300_000));
    s.threats.push(threat_at(410_000, 310_000));
    s.update_threats();
    assert!(s.threats.is_empty());
    assert_eq!(s.planet_health, 80);
    assert_eq!(s.screen_shake, 12_000);
    assert_eq!(s.particles.len(), 40);
    assert_eq!(s.sounds, vec![Sound::PlanetHit, Sound::PlanetHit]);
    // One burst of 20 per impact, in impact order, each at its own
    // threat's position.
    for (i, p) in s.particles.iter().enumerate() {
        let (hx, hy) = if i < 20 { (400_000, 300_000) } else { (410_000, 310_000) };
        assert_eq!((p.x, p.y), (hx, hy));
    }
}

#[test]
fn combo_keeps_growing_while_the_window_stays_open() {
    let mut s = GameState::new();
    s.threats.push(threat_at(100_000, 100_000));
    s.projectiles.push(projectile_at(110_000, 100_000));
    s.update(16);
    assert_eq!(s.combo, 1);
    // A second kill 16 ms later, well inside the 2000 ms window.
    s.threats.push(threat_at(700_000, 500_000));
    s.projectiles.push(projectile_at(710_000, 500_000));
    s.update(16);
    assert_eq!(s.combo, 2);
    assert_eq!(s.score, 30);
    assert_eq!(s.combo_timer, 2_000 - 16);
}

//! Geometry, trigonometry and numeric helpers.

use orbital_guardian::entities::Threat;
use orbital_guardian::num::isqrt_u64;
use orbital_guardian::physics::check_collision;
use orbital_guardian::physics::is_on_screen;
use orbital_guardian::physics::is_threat_hitting_planet;
use orbital_guardian::rng::Rng;
use orbital_guardian::systems::spawn_interval_ms;
use orbital_guardian::trig::cosine;
use orbital_guardian::trig::sine;

#[test]
fn collision_is_strict_on_the_radius_sum() {
    // Radii 10 + 10 units: centers 19.999 apart collide, 20.000 and
    // 20.001 do not.
    assert!(check_collision(0, 0, 10_000, 19_999, 0, 10_000));
    assert!(!check_collision(0, 0, 10_000, 20_000, 0, 10_000));
    assert!(!check_collision(0, 0, 10_000, 20_001, 0, 10_000));
}

#[test]
fn collision_is_symmetric_and_diagonal() {
    assert!(check_collision(100_000, 200_000, 5_000, 103_000, 204_000, 1_000));
    assert!(check_collision(103_000, 204_000, 1_000, 100_000, 200_000, 5_000));
    // Distance exactly 5000 (3-4-5 triangle), radius sum 5000: no overlap.
    assert!(!check_collision(0, 0, 2_500, 3_000, 4_000, 2_500));
}

#[test]
fn planet_impact_is_distance_from_center() {
    let at_center = Threat { x: 400_000, y: 300_000, vx: 0, vy: 0, radius: 15_000 };
    assert!(is_threat_hitting_planet(&at_center));
    let just_inside = Threat { x: 449_999, y: 300_000, vx: 0, vy: 0, radius: 15_000 };
    assert!(is_threat_hitting_planet(&just_inside));
    let on_rim = Threat { x: 450_000, y: 300_000, vx: 0, vy: 0, radius: 15_000 };
    assert!(!is_threat_hitting_planet(&on_rim));
}

#[test]
fn on_screen_bounds_are_strict() {
    assert!(is_on_screen(0, 0, 10_000));
    assert!(is_on_screen(-9_999, 300_000, 10_000));
    assert!(!is_on_screen(-10_000, 300_000, 10_000));
    assert!(is_on_screen(809_999, 300_000, 10_000));
    assert!(!is_on_screen(810_000, 300_000, 10_000));
    assert!(!is_on_screen(400_000, 610_000, 10_000));
    assert!(is_on_screen(400_000, 609_999, 10_000));
}

#[test]
fn sine_and_cosine_hit_the_cardinal_points() {
    assert_eq!(sine(0), 0);
    assert_eq!(sine(90), 1000);
    assert_eq!(sine(180), 0);
    assert_eq!(sine(270), -1000);
    assert_eq!(cosine(0), 1000);
    assert_eq!(cosine(90), 0);
    assert_eq!(cosine(180), -1000);
    assert_eq!(cosine(270), 0);
    assert_eq!(sine(30), 500);
    assert_eq!(sine(150), 500);
    assert_eq!(sine(210), -500);
    assert_eq!(cosine(60), 500);
}

#[test]
fn sine_and_cosine_stay_near_the_unit_circle() {
    for d in 0..360 {
        let s = sine(d);
        let c = cosine(d);
        assert!(-1000 <= s && s <= 1000);
        assert!(-1000 <= c && c <= 1000);
        let norm = s * s + c * c;
        assert!((norm - 1_000_000).abs() <= 10_000, "angle {d}: norm {norm}");
    }
}

#[test]
fn integer_square_root_brackets_its_argument() {
    assert_eq!(isqrt_u64(0), 0);
    assert_eq!(isqrt_u64(1), 1);
    assert_eq!(isqrt_u64(3), 1);
    assert_eq!(isqrt_u64(4), 2);
    assert_eq!(isqrt_u64(480_000 * 480_000), 480_000);
    assert_eq!(isqrt_u64(480_000 * 480_000 + 1), 480_000);
    assert_eq!(isqrt_u64(u64::MAX), 4_294_967_295);
}

#[test]
fn difficulty_curve_interpolates_and_clamps() {
    assert_eq!(spawn_interval_ms(0), 2000);
    assert_eq!(spawn_interval_ms(30_000), 1250);
    assert_eq!(spawn_interval_ms(60_000), 500);
    assert_eq!(spawn_interval_ms(90_000), 500);
    assert_eq!(spawn_interval_ms(u64::MAX), 500);
    // Non-increasing along the whole ramp.
    let mut last = 2000;
    for t in 0..=60 {
        let v = spawn_interval_ms(t * 1000);
        assert!(v <= last);
        last = v;
    }
}

#[test]
fn draws_stay_in_their_ranges() {
    let mut rng = Rng::from_seed(12345);
    for _ in 0..1000 {
        let a = rng.below(360);
        assert!(a < 360);
        let s = rng.range_i64(1_500, 4_500);
        assert!((1_500..=4_500).contains(&s));
        let j = rng.range_i64(-37_500, 37_500);
        assert!((-37_500..=37_500).contains(&j));
    }
}

#[test]
fn equal_seeds_give_equal_runs() {
    let mut a = Rng::from_seed(99);
    let mut b = Rng::from_seed(99);
    for _ in 0..100 {
        assert_eq!(a.next_u64(), b.next_u64());
    }
    let mut c = Rng::from_seed(100);
    let first: Vec<u64> = (0..8).map(|_| a.next_u64()).collect();
    let second: Vec<u64> = (0..8).map(|_| c.next_u64()).collect();
    assert_ne!(first, second);
}

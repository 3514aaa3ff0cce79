//! Pure geometry: circle overlap, planet impact and the on-screen test.
//!
//! Distances are compared in squared form, which is exact over the
//! integers; `lemma_overlap_is_distance` relates the squared comparison
//! back to the plain reading "the centers are closer than the radius sum".

use crate::constants::ENTITY_BOUND;
use crate::constants::CENTER_X;
use crate::constants::CENTER_Y;
use crate::constants::FIELD_HEIGHT;
use crate::constants::FIELD_WIDTH;
use crate::constants::MUZZLE_SPEED;
use crate::constants::PLANET_RADIUS;
use crate::entities::Threat;
use vstd::prelude::*;

verus! {

/// True iff the circle at `(x1, y1)` with radius `r1` overlaps the circle
/// at `(x2, y2)` with radius `r2`: the squared distance between the
/// centers is strictly below the squared radius sum.
pub open spec fn overlaps(x1: int, y1: int, r1: int, x2: int, y2: int, r2: int) -> bool {
    let dx = x1 - x2;
    let dy = y1 - y2;
    dx * dx + dy * dy < (r1 + r2) * (r1 + r2)
}

/// True iff `(x, y)` lies strictly inside the planet.
pub open spec fn within_planet(x: int, y: int) -> bool {
    let dx = x - CENTER_X;
    let dy = y - CENTER_Y;
    dx * dx + dy * dy < PLANET_RADIUS * PLANET_RADIUS
}

/// True iff `(x, y)` lies within the screen extended by `margin` on every
/// side (strictly, as the screen bounds themselves are).
pub open spec fn on_screen_at(x: int, y: int, margin: int) -> bool {
    &&& -margin < x < FIELD_WIDTH + margin
    &&& -margin < y < FIELD_HEIGHT + margin
}

/// The squared comparison says exactly that the center distance is below
/// the radius sum: with `d` the integer part of the distance between the
/// centers (`d * d <= dx * dx + dy * dy < (d + 1) * (d + 1)`), the circles
/// overlap iff `d < r1 + r2`.  Strictness matters: centers exactly a
/// radius sum apart do not overlap.
pub proof fn lemma_overlap_is_distance(
    x1: int,
    y1: int,
    r1: int,
    x2: int,
    y2: int,
    r2: int,
    d: int,
)
    requires
        0 <= d,
        0 <= r1 + r2,
        d * d <= (x1 - x2) * (x1 - x2) + (y1 - y2) * (y1 - y2),
        (x1 - x2) * (x1 - x2) + (y1 - y2) * (y1 - y2) < (d + 1) * (d + 1),
    ensures
        overlaps(x1, y1, r1, x2, y2, r2) <==> d < r1 + r2,
{
    let dd = (x1 - x2) * (x1 - x2) + (y1 - y2) * (y1 - y2);
    let s = r1 + r2;
    if d < s {
        assert((d + 1) * (d + 1) <= s * s) by (nonlinear_arith)
            requires
                0 <= d,
                d + 1 <= s,
        ;
    }
    if dd < s * s {
        assert(d < s) by (nonlinear_arith)
            requires
                0 <= d,
                0 <= s,
                d * d <= dd,
                dd < s * s,
        ;
    }
}

/// Circle-overlap test, exact over the squared distances.
///
/// Relied on throughout the projectile pass; the bounds keep every square
/// far inside the machine range.
pub fn check_collision(x1: i64, y1: i64, r1: i64, x2: i64, y2: i64, r2: i64) -> (r: bool)
    requires
        -4_000_000 <= x1 <= 4_000_000,
        -4_000_000 <= y1 <= 4_000_000,
        -4_000_000 <= x2 <= 4_000_000,
        -4_000_000 <= y2 <= 4_000_000,
        0 <= r1 <= 100_000,
        0 <= r2 <= 100_000,
    ensures
        r == overlaps(x1 as int, y1 as int, r1 as int, x2 as int, y2 as int, r2 as int),
{
    let dx = x1 - x2;
    let dy = y1 - y2;
    assert(dx * dx <= 64_000_000_000_000) by (nonlinear_arith)
        requires
            -8_000_000 <= dx <= 8_000_000,
    ;
    assert(dy * dy <= 64_000_000_000_000) by (nonlinear_arith)
        requires
            -8_000_000 <= dy <= 8_000_000,
    ;
    assert(0 <= dx * dx && 0 <= dy * dy) by (nonlinear_arith);
    let s = r1 + r2;
    assert(s * s <= 40_000_000_000) by (nonlinear_arith)
        requires
            0 <= s <= 200_000,
    ;
    dx * dx + dy * dy < s * s
}

/// True iff the threat's center is strictly inside the planet.
pub fn is_threat_hitting_planet(threat: &Threat) -> (r: bool)
    requires
        -4_000_000 <= threat.x <= 4_000_000,
        -4_000_000 <= threat.y <= 4_000_000,
    ensures
        r == within_planet(threat.x as int, threat.y as int),
{
    let dx = threat.x - CENTER_X;
    let dy = threat.y - CENTER_Y;
    assert(dx * dx <= 20_000_000_000_000) by (nonlinear_arith)
        requires
            -4_400_000 <= dx <= 4_400_000,
    ;
    assert(dy * dy <= 20_000_000_000_000) by (nonlinear_arith)
        requires
            -4_400_000 <= dy <= 4_400_000,
    ;
    assert(0 <= dx * dx && 0 <= dy * dy) by (nonlinear_arith);
    dx * dx + dy * dy < PLANET_RADIUS * PLANET_RADIUS
}

/// On-screen test with a margin, strict on every edge.
pub fn is_on_screen(x: i64, y: i64, margin: i64) -> (r: bool)
    requires
        -ENTITY_BOUND - MUZZLE_SPEED <= x <= ENTITY_BOUND + MUZZLE_SPEED,
        -ENTITY_BOUND - MUZZLE_SPEED <= y <= ENTITY_BOUND + MUZZLE_SPEED,
        0 <= margin <= 1_000_000,
    ensures
        r == on_screen_at(x as int, y as int, margin as int),
{
    x > -margin && x < FIELD_WIDTH + margin && y > -margin && y < FIELD_HEIGHT + margin
}

} // verus!

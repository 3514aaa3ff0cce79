//! Fixed-point sine and cosine over whole degrees.
//!
//! The half-turn sine uses Bhaskara I's rational approximation
//! `sin x ~= 4x(180 - x) / (40500 - x(180 - x))` (for `x` in degrees),
//! scaled by `constants::SCALE`.  It is exact at the cardinal angles
//! (0, 90, 180, 270 give 0, 1000, 0, -1000) and at 30/150/210/330
//! (+-500), and stays within `[-SCALE, SCALE]` everywhere.

use vstd::arithmetic::div_mod::lemma_div_multiples_vanish;
use vstd::arithmetic::div_mod::lemma_div_of0;
use vstd::arithmetic::div_mod::lemma_div_pos_is_pos;
use vstd::arithmetic::div_mod::lemma_multiply_divide_le;
use vstd::prelude::*;

verus! {

/// Scaled sine of `d` degrees, for `d` in `[0, 180]`.
pub open spec fn sin_arch_fp(d: int) -> int {
    (4 * d * (180 - d) * 1000) / (40500 - d * (180 - d))
}

/// Scaled sine of `d` degrees, for `d` in `[0, 360)`.
pub open spec fn sin_fp(d: int) -> int {
    if d < 180 {
        sin_arch_fp(d)
    } else {
        -sin_arch_fp(d - 180)
    }
}

/// Scaled cosine of `d` degrees, for `d` in `[0, 360)`: the sine shifted
/// by a quarter turn.
pub open spec fn cos_fp(d: int) -> int {
    if d < 270 {
        sin_fp(d + 90)
    } else {
        sin_fp(d - 270)
    }
}

/// The half-turn sine stays within `[0, SCALE]`.
pub proof fn lemma_sin_arch_bounds(d: int)
    requires
        0 <= d <= 180,
    ensures
        0 <= sin_arch_fp(d) <= 1000,
{
    assert(0 <= d * (180 - d) <= 8100) by (nonlinear_arith)
        requires
            0 <= d <= 180,
    ;
    assert(4 * d * (180 - d) * 1000 == 4000 * (d * (180 - d))) by (nonlinear_arith);
    assert(4 * d * (180 - d) * 1000 <= (40500 - d * (180 - d)) * 1000) by (nonlinear_arith)
        requires
            0 <= d * (180 - d) <= 8100,
    ;
    lemma_div_pos_is_pos(4 * d * (180 - d) * 1000, 40500 - d * (180 - d));
    lemma_multiply_divide_le(4 * d * (180 - d) * 1000, 40500 - d * (180 - d), 1000);
}

/// The sine stays within `[-SCALE, SCALE]`.
pub proof fn lemma_sin_fp_bounds(d: int)
    requires
        0 <= d < 360,
    ensures
        -1000 <= sin_fp(d) <= 1000,
{
    if d < 180 {
        lemma_sin_arch_bounds(d);
    } else {
        lemma_sin_arch_bounds(d - 180);
    }
}

/// The cosine stays within `[-SCALE, SCALE]`.
pub proof fn lemma_cos_fp_bounds(d: int)
    requires
        0 <= d < 360,
    ensures
        -1000 <= cos_fp(d) <= 1000,
{
    if d < 270 {
        lemma_sin_fp_bounds(d + 90);
    } else {
        lemma_sin_fp_bounds(d - 270);
    }
}

/// The approximation is exact at the cardinal angles.
pub proof fn lemma_trig_cardinal()
    ensures
        sin_fp(0) == 0,
        sin_fp(90) == 1000,
        sin_fp(180) == 0,
        sin_fp(270) == -1000,
        cos_fp(0) == 1000,
        cos_fp(90) == 0,
        cos_fp(180) == -1000,
        cos_fp(270) == 0,
{
    lemma_div_of0(40500);
    assert(4 * 90 * (180 - 90) * 1000 == 32400 * 1000);
    assert(40500 - 90 * (180 - 90) == 32400);
    lemma_div_multiples_vanish(1000, 32400);
    assert(sin_arch_fp(0) == 0);
    assert(sin_arch_fp(90) == 1000);
}

fn sine_arch(d: i64) -> (r: i64)
    requires
        0 <= d <= 180,
    ensures
        r == sin_arch_fp(d as int),
        0 <= r <= 1000,
{
    proof {
        lemma_sin_arch_bounds(d as int);
        assert(0 <= (d as int) * (180 - d as int) <= 8100) by (nonlinear_arith)
            requires
                0 <= d <= 180,
        ;
    }
    let m: i64 = d * (180 - d);
    let num: i64 = 4000 * m;
    let den: i64 = 40500 - m;
    proof {
        assert(num == 4 * (d as int) * (180 - d as int) * 1000) by (nonlinear_arith)
            requires
                m == (d as int) * (180 - d as int),
                num == 4000 * m,
        ;
    }
    let q: u64 = (num as u64) / (den as u64);
    q as i64
}

/// Scaled sine of `d` degrees.
pub fn sine(d: i64) -> (r: i64)
    requires
        0 <= d < 360,
    ensures
        r == sin_fp(d as int),
        -1000 <= r <= 1000,
{
    if d < 180 {
        sine_arch(d)
    } else {
        -sine_arch(d - 180)
    }
}

/// A trigonometric value `t` (scaled by 1000) times a magnitude `k`,
/// rescaled to plain units.  The division truncates toward zero, so the
/// result is symmetric in the sign of `t`.
pub open spec fn mul_scale(t: int, k: int) -> int {
    if t >= 0 {
        (t * k) / 1000
    } else {
        -((-t * k) / 1000)
    }
}

/// Computes `mul_scale(t, k)`: a velocity or offset component of
/// magnitude at most `k` along a direction given by a trigonometric
/// value.
pub fn scale_by_trig(t: i64, k: i64) -> (r: i64)
    requires
        -1000 <= t <= 1000,
        0 <= k <= 1_000_000,
    ensures
        r == mul_scale(t as int, k as int),
        -k <= r <= k,
{
    if t >= 0 {
        proof {
            assert(t * k <= 1000 * k) by (nonlinear_arith)
                requires
                    0 <= t <= 1000,
                    0 <= k,
            ;
            assert(0 <= t * k) by (nonlinear_arith)
                requires
                    0 <= t,
                    0 <= k,
            ;
            lemma_multiply_divide_le(t as int * k as int, 1000, k as int);
            lemma_div_pos_is_pos(t as int * k as int, 1000);
        }
        let q: u64 = ((t as u64) * (k as u64)) / 1000;
        q as i64
    } else {
        let n = -t;
        proof {
            assert(n * k <= 1000 * k) by (nonlinear_arith)
                requires
                    0 <= n <= 1000,
                    0 <= k,
            ;
            assert(0 <= n * k) by (nonlinear_arith)
                requires
                    0 <= n,
                    0 <= k,
            ;
            lemma_multiply_divide_le(n as int * k as int, 1000, k as int);
            lemma_div_pos_is_pos(n as int * k as int, 1000);
        }
        let q: u64 = ((n as u64) * (k as u64)) / 1000;
        -(q as i64)
    }
}

/// Scaled cosine of `d` degrees.
pub fn cosine(d: i64) -> (r: i64)
    requires
        0 <= d < 360,
    ensures
        r == cos_fp(d as int),
        -1000 <= r <= 1000,
{
    if d < 270 {
        sine(d + 90)
    } else {
        sine(d - 270)
    }
}

} // verus!

//! Fixed-point directions on the unit circle.
//!
//! An angle is a number of units in `[0, FULL_TURN)`. A direction is a pair
//! of fixed-point components scaled by `SCALE`. Within a quarter turn the
//! direction comes from the rational parametrization of the circle by the
//! tangent of the half angle: with `t = TAN_ONE * tan(angle / 2)`, the
//! components are proportional to `(TAN_ONE^2 - t^2, 2 * t * TAN_ONE)`.
//! That parametrization never leaves the closed unit disk, whatever `t`
//! is, which is what the samplers rely on; the half-angle tangent itself
//! is approximated by a small odd polynomial, which only affects how
//! evenly the angle units are spread around the circle.

use vstd::prelude::*;

verus! {

/// Fixed-point one for direction components.
pub const SCALE: u64 = 65536;

/// Fixed-point value of the tangent of an eighth of a turn.
pub const TAN_ONE: u64 = 32768;

/// Angle units in a quarter turn.
pub const QUARTER: u64 = 1024;

/// `QUARTER` cubed, the divisor of the cubic term of the tangent polynomial.
pub const QUARTER_CUBED: u64 = 0x4000_0000;

/// Angle units in a full turn.
pub const FULL_TURN: u64 = 4096;

/// Linear coefficient of the half-angle tangent polynomial.
pub const TAN_LIN: u64 = 25736;

/// Cubic coefficient of the half-angle tangent polynomial;
/// `TAN_LIN + TAN_CUB == TAN_ONE`, so the polynomial ends at one.
pub const TAN_CUB: u64 = 7032;

/// Fixed-point half-angle tangent of `b` quarter-turn units.
pub open spec fn tan_units(b: int) -> int {
    (TAN_LIN * b) / (QUARTER as int) + (TAN_CUB * (b * b * b)) / (QUARTER_CUBED as int)
}

/// Direction for an angle within the first quarter turn.
pub open spec fn quarter_dir(b: int) -> (int, int) {
    let t = tan_units(b);
    let den = TAN_ONE * TAN_ONE + t * t;
    (
        (SCALE * (TAN_ONE * TAN_ONE - t * t)) / den,
        (SCALE * (2 * t * TAN_ONE)) / den,
    )
}

/// Direction for any angle, by rotating the first-quarter direction.
pub open spec fn dir_of_angle(a: int) -> (int, int) {
    let q = a / (QUARTER as int);
    let cs = quarter_dir(a % (QUARTER as int));
    if q == 0 {
        cs
    } else if q == 1 {
        (-cs.1, cs.0)
    } else if q == 2 {
        (-cs.0, -cs.1)
    } else {
        (cs.1, -cs.0)
    }
}

/// The half-angle tangent stays within `[0, TAN_ONE]` on a quarter turn.
pub proof fn lemma_tan_units_range(b: int)
    requires
        0 <= b < QUARTER,
    ensures
        0 <= tan_units(b) <= TAN_ONE,
{
    let cube = b * b * b;
    assert(0 <= cube && cube < QUARTER_CUBED) by (nonlinear_arith)
        requires
            cube == b * b * b,
            0 <= b < 1024,
    ;
    crate::math::lemma_div_mul_le(TAN_LIN * b, QUARTER as int);
    crate::math::lemma_div_mul_le(TAN_CUB * cube, QUARTER_CUBED as int);
    crate::math::lemma_div_le(TAN_LIN * b, QUARTER as int, TAN_LIN as int);
    crate::math::lemma_div_le(TAN_CUB * cube, QUARTER_CUBED as int, TAN_CUB as int);
}

/// A first-quarter direction has non-negative components bounded by
/// `SCALE` and lies in the closed disk of radius `SCALE`.
pub proof fn lemma_quarter_dir_bounds(b: int)
    requires
        0 <= b < QUARTER,
    ensures
        0 <= quarter_dir(b).0 <= SCALE,
        0 <= quarter_dir(b).1 <= SCALE,
        quarter_dir(b).0 * quarter_dir(b).0 + quarter_dir(b).1 * quarter_dir(b).1 <= SCALE
            * SCALE,
{
    lemma_tan_units_range(b);
    let t = tan_units(b);
    crate::math::lemma_square_bound(t, TAN_ONE as int);
    let u = t * t;
    let den = TAN_ONE * TAN_ONE + u;
    let numc = SCALE * (TAN_ONE * TAN_ONE - u);
    let nums = SCALE * (2 * t * TAN_ONE);
    assert(0 < den);
    assert(0 <= numc);
    assert(2 * t * TAN_ONE <= TAN_ONE * TAN_ONE + u) by (nonlinear_arith)
        requires
            u == t * t,
            0 <= t <= TAN_ONE,
    ;
    assert(nums <= SCALE * den);
    assert(numc <= SCALE * den);
    let c0 = numc / den;
    let s0 = nums / den;
    crate::math::lemma_div_mul_le(numc, den);
    crate::math::lemma_div_mul_le(nums, den);
    crate::math::lemma_div_le(numc, den, SCALE as int);
    crate::math::lemma_div_le(nums, den, SCALE as int);
    assert(nums * nums == SCALE * SCALE * (4 * (TAN_ONE * TAN_ONE) * u)) by (nonlinear_arith)
        requires
            nums == SCALE * (2 * t * TAN_ONE),
            u == t * t,
    ;
    assert(numc * numc + nums * nums == SCALE * SCALE * (den * den)) by (nonlinear_arith)
        requires
            0 <= u,
            u <= TAN_ONE * TAN_ONE,
            nums * nums == SCALE * SCALE * (4 * (TAN_ONE * TAN_ONE) * u),
            numc == SCALE * (TAN_ONE * TAN_ONE - u),
            den == TAN_ONE * TAN_ONE + u,
    ;
    crate::math::lemma_norm_shrink(c0, s0, numc, nums, den, SCALE as int);
    assert(quarter_dir(b).0 == c0);
    assert(quarter_dir(b).1 == s0);
}

/// Any direction has components bounded by `SCALE` in magnitude and lies
/// in the closed disk of radius `SCALE`.
pub proof fn lemma_dir_bounds(a: int)
    requires
        0 <= a < FULL_TURN,
    ensures
        -(SCALE as int) <= dir_of_angle(a).0 <= SCALE,
        -(SCALE as int) <= dir_of_angle(a).1 <= SCALE,
        dir_of_angle(a).0 * dir_of_angle(a).0 + dir_of_angle(a).1 * dir_of_angle(a).1 <= SCALE
            * SCALE,
{
    let b = a % (QUARTER as int);
    vstd::arithmetic::div_mod::lemma_mod_division_less_than_divisor(a, QUARTER as int);
    lemma_quarter_dir_bounds(b);
    let cs = quarter_dir(b);
    let d = dir_of_angle(a);
    assert(d.0 * d.0 + d.1 * d.1 == cs.0 * cs.0 + cs.1 * cs.1) by (nonlinear_arith)
        requires
            (d.0 == cs.0 && d.1 == cs.1) || (d.0 == -cs.1 && d.1 == cs.0) || (d.0 == -cs.0
                && d.1 == -cs.1) || (d.0 == cs.1 && d.1 == -cs.0),
    ;
}

/// Runtime direction for an angle; returns exactly the specified
/// fixed-point components.
pub fn dir_from_angle(a: u64) -> (cs: (i64, i64))
    requires
        a < FULL_TURN,
    ensures
        cs.0 == dir_of_angle(a as int).0,
        cs.1 == dir_of_angle(a as int).1,
        -(SCALE as int) <= cs.0 <= SCALE,
        -(SCALE as int) <= cs.1 <= SCALE,
        cs.0 * cs.0 + cs.1 * cs.1 <= SCALE * SCALE,
{
    let q: u64 = a / QUARTER;
    let b: u64 = a % QUARTER;
    proof {
        vstd::arithmetic::div_mod::lemma_mod_division_less_than_divisor(a as int, QUARTER as int);
        lemma_tan_units_range(b as int);
        lemma_quarter_dir_bounds(b as int);
        lemma_dir_bounds(a as int);
        crate::math::lemma_square_bound(b as int, 1023int);
        crate::math::lemma_mul_le((b as int) * (b as int), b as int, 1023int * 1023int, 1023int);
    }
    let cube: u64 = b * b * b;
    let t: u64 = (TAN_LIN * b) / QUARTER + (TAN_CUB * cube) / QUARTER_CUBED;
    proof {
        assert(t == tan_units(b as int));
        crate::math::lemma_square_bound(t as int, TAN_ONE as int);
    }
    let den: u64 = TAN_ONE * TAN_ONE + t * t;
    let c0: u64 = (SCALE * (TAN_ONE * TAN_ONE - t * t)) / den;
    let s0: u64 = (SCALE * (2 * t * TAN_ONE)) / den;
    proof {
        assert(c0 == quarter_dir(b as int).0);
        assert(s0 == quarter_dir(b as int).1);
    }
    let c = c0 as i64;
    let s = s0 as i64;
    if q == 0 {
        (c, s)
    } else if q == 1 {
        (-s, c)
    } else if q == 2 {
        (-c, -s)
    } else {
        (s, -c)
    }
}

} // verus!

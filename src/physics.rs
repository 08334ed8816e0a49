//! The pairwise gravitational pull between two points, and the clamp applied
//! to each of its components.

use vstd::prelude::*;
use vstd::arithmetic::div_mod::{lemma_div_pos_is_pos, lemma_fundamental_div_mod};
use crate::isqrt::{floor_sqrt, floor_sqrt_u128, lemma_floor_sqrt};

verus! {

/// Fixed-point units in one pixel; speeds and accelerations use the same scale
/// per second and per second squared.
pub const SCALE: i64 = 1_000_000;

/// Largest absolute value of a position coordinate, in fixed-point units.
pub const COORD_LIMIT: i64 = 9_000_000_000_000_000;

/// Largest absolute value of one pairwise acceleration component:
/// 200 pixels per second squared.
pub const ACCEL_LIMIT: i64 = 200_000_000;

/// The gravitational constant 6.67430e-11 times `SCALE` cubed, so that a pull
/// computed on fixed-point coordinates comes out in fixed-point units.
pub const GRAVITY_FACTOR: u128 = 66_743_000;

/// A point or a vector in the plane, in fixed-point units.
#[derive(Clone, Copy, Debug, PartialEq, Eq, Structural)]
pub struct Point2D {
    pub x: i64,
    pub y: i64,
}

/// Both coordinates are within `COORD_LIMIT` of the origin.
pub open spec fn in_range(p: Point2D) -> bool {
    -COORD_LIMIT <= p.x <= COORD_LIMIT && -COORD_LIMIT <= p.y <= COORD_LIMIT
}

pub open spec fn abs(v: int) -> int {
    if v < 0 {
        -v
    } else {
        v
    }
}

/// G times the squared mass shared by every particle, in fixed-point units.
pub open spec fn gravity_strength(mass: int) -> int {
    GRAVITY_FACTOR * (mass * mass)
}

pub open spec fn squared_distance(a: Point2D, b: Point2D) -> int {
    (b.x - a.x) * (b.x - a.x) + (b.y - a.y) * (b.y - a.y)
}

/// Size of the pull along one axis on which the points lie `delta` apart,
/// `dist_sq` being their squared distance: G·m²·|delta| / dist³, rounded down
/// after the division by `dist_sq` and after the division by the rounded-down
/// distance.
pub open spec fn pull_magnitude(mass: int, dist_sq: int, delta: int) -> int {
    (gravity_strength(mass) / dist_sq) * abs(delta) / floor_sqrt(dist_sq)
}

/// The pull along one axis, with the sign of `delta`.
pub open spec fn axis_pull(mass: int, dist_sq: int, delta: int) -> int {
    if delta < 0 {
        -pull_magnitude(mass, dist_sq, delta)
    } else {
        pull_magnitude(mass, dist_sq, delta)
    }
}

/// The pull felt at `a` toward `b`, used directly as an acceleration; zero
/// when the two points coincide.
pub open spec fn gravitational_force(a: Point2D, b: Point2D, mass: int) -> (int, int) {
    let dist_sq = squared_distance(a, b);
    if dist_sq == 0 {
        (0, 0)
    } else {
        (axis_pull(mass, dist_sq, b.x - a.x), axis_pull(mass, dist_sq, b.y - a.y))
    }
}

/// `raw` limited to `[-ACCEL_LIMIT, ACCEL_LIMIT]`, keeping its sign.
pub open spec fn clamped(raw: int) -> int {
    if raw > ACCEL_LIMIT {
        ACCEL_LIMIT as int
    } else if raw < -ACCEL_LIMIT {
        -ACCEL_LIMIT
    } else {
        raw
    }
}

proof fn lemma_pull_fits(strength: int, dist_sq: int, delta_abs: int)
    requires
        0 <= strength,
        0 <= delta_abs,
        0 < dist_sq,
        delta_abs * delta_abs <= dist_sq,
    ensures
        0 <= strength / dist_sq,
        (strength / dist_sq) * delta_abs <= strength,
{
    let q = strength / dist_sq;
    lemma_fundamental_div_mod(strength, dist_sq);
    lemma_div_pos_is_pos(strength, dist_sq);
    assert(q * delta_abs <= strength) by (nonlinear_arith)
        requires
            strength == dist_sq * q + strength % dist_sq,
            0 <= strength % dist_sq,
            0 <= q,
            0 <= delta_abs,
            delta_abs * delta_abs <= dist_sq,
    ;
}

proof fn lemma_square_of_abs(v: int)
    ensures
        abs(v) * abs(v) == v * v,
        0 <= v * v,
{
    assert(abs(v) * abs(v) == v * v && 0 <= v * v) by (nonlinear_arith);
}

/// The pull felt at `pos_first` toward `pos_second` by two particles of the
/// given mass, before any clamp.
pub fn calc_gravitational_force(pos_first: Point2D, pos_second: Point2D, mass: u32) -> (r: (
    i128,
    i128,
))
    requires
        in_range(pos_first),
        in_range(pos_second),
    ensures
        (r.0 as int, r.1 as int) == gravitational_force(pos_first, pos_second, mass as int),
        pos_first == pos_second ==> r == (0i128, 0i128),
{
    let rel_x: i128 = pos_second.x as i128 - pos_first.x as i128;
    let rel_y: i128 = pos_second.y as i128 - pos_first.y as i128;
    let abs_x: u128 = if rel_x < 0 {
        (-rel_x) as u128
    } else {
        rel_x as u128
    };
    let abs_y: u128 = if rel_y < 0 {
        (-rel_y) as u128
    } else {
        rel_y as u128
    };
    proof {
        lemma_square_of_abs(rel_x as int);
        lemma_square_of_abs(rel_y as int);
        assert(abs_x * abs_x <= 18_000_000_000_000_000 * 18_000_000_000_000_000) by (
        nonlinear_arith)
            requires
                abs_x <= 18_000_000_000_000_000,
        ;
        assert(abs_y * abs_y <= 18_000_000_000_000_000 * 18_000_000_000_000_000) by (
        nonlinear_arith)
            requires
                abs_y <= 18_000_000_000_000_000,
        ;
    }
    let dist_sq: u128 = abs_x * abs_x + abs_y * abs_y;
    assert(dist_sq as int == squared_distance(pos_first, pos_second));
    if dist_sq == 0 {
        return (0, 0);
    }
    assert(pos_first != pos_second) by {
        if pos_first == pos_second {
            assert(dist_sq == 0) by (nonlinear_arith)
                requires
                    abs_x == 0,
                    abs_y == 0,
                    dist_sq == abs_x * abs_x + abs_y * abs_y,
            ;
        }
    }
    let dist: u128 = floor_sqrt_u128(dist_sq);
    proof {
        lemma_floor_sqrt(dist_sq as int);
        assert(dist >= 1) by (nonlinear_arith)
            requires
                dist_sq < (dist + 1) * (dist + 1),
                dist_sq >= 1,
        ;
    }
    let m: u128 = mass as u128;
    assert(m * m <= 0xffff_ffff * 0xffff_ffff) by (nonlinear_arith)
        requires
            m <= 0xffff_ffff,
    ;
    let strength: u128 = GRAVITY_FACTOR * (m * m);
    let per_dist_sq: u128 = strength / dist_sq;
    proof {
        assert(abs_x * abs_x <= dist_sq);
        assert(abs_y * abs_y <= dist_sq);
        lemma_pull_fits(strength as int, dist_sq as int, abs_x as int);
        lemma_pull_fits(strength as int, dist_sq as int, abs_y as int);
    }
    let mag_x: u128 = per_dist_sq * abs_x / dist;
    let mag_y: u128 = per_dist_sq * abs_y / dist;
    proof {
        assert(mag_x <= per_dist_sq * abs_x) by (nonlinear_arith)
            requires
                mag_x == (per_dist_sq * abs_x) as int / dist as int,
                dist >= 1,
        ;
        assert(mag_y <= per_dist_sq * abs_y) by (nonlinear_arith)
            requires
                mag_y == (per_dist_sq * abs_y) as int / dist as int,
                dist >= 1,
        ;
    }
    let force_x: i128 = if rel_x < 0 {
        -(mag_x as i128)
    } else {
        mag_x as i128
    };
    let force_y: i128 = if rel_y < 0 {
        -(mag_y as i128)
    } else {
        mag_y as i128
    };
    (force_x, force_y)
}

/// Two particles at the same place exert no pull on each other.
pub proof fn lemma_zero_separation(a: Point2D, mass: int)
    ensures
        gravitational_force(a, a, mass) == (0int, 0int),
{
}

proof fn lemma_pull_magnitude_nonneg(mass: int, dist_sq: int, delta: int)
    requires
        0 < dist_sq,
    ensures
        0 <= pull_magnitude(mass, dist_sq, delta),
        delta == 0 ==> pull_magnitude(mass, dist_sq, delta) == 0,
{
    lemma_floor_sqrt(dist_sq);
    let root = floor_sqrt(dist_sq);
    assert(root >= 1) by (nonlinear_arith)
        requires
            0 <= root,
            dist_sq < (root + 1) * (root + 1),
            dist_sq >= 1,
    ;
    let strength = gravity_strength(mass);
    assert(0 <= mass * mass) by (nonlinear_arith);
    lemma_div_pos_is_pos(strength, dist_sq);
    let q = strength / dist_sq;
    assert(0 <= (q * abs(delta)) / root) by (nonlinear_arith)
        requires
            0 <= q,
            0 <= abs(delta),
            1 <= root,
    ;
    if delta == 0 {
        assert((q * 0) / root == 0) by (nonlinear_arith)
            requires
                1 <= root,
        ;
    }
}

/// The pull between two particles is equal and opposite: swapping them
/// negates it. Each component points from the first particle toward the
/// second, and is zero where the two share that coordinate.
pub proof fn lemma_force_antisymmetric(a: Point2D, b: Point2D, mass: int)
    ensures
        gravitational_force(b, a, mass).0 == -gravitational_force(a, b, mass).0,
        gravitational_force(b, a, mass).1 == -gravitational_force(a, b, mass).1,
        gravitational_force(a, b, mass).0 * (b.x - a.x) >= 0,
        gravitational_force(a, b, mass).1 * (b.y - a.y) >= 0,
        a.x == b.x ==> gravitational_force(a, b, mass).0 == 0,
        a.y == b.y ==> gravitational_force(a, b, mass).1 == 0,
{
    let dx = b.x - a.x;
    let dy = b.y - a.y;
    assert((a.x - b.x) * (a.x - b.x) == dx * dx && (a.y - b.y) * (a.y - b.y) == dy * dy)
        by (nonlinear_arith)
        requires
            dx == b.x - a.x,
            dy == b.y - a.y,
    ;
    assert(squared_distance(b, a) == squared_distance(a, b));
    let dist_sq = squared_distance(a, b);
    if dist_sq != 0 {
        assert(0 <= dx * dx && 0 <= dy * dy) by (nonlinear_arith);
        lemma_pull_magnitude_nonneg(mass, dist_sq, dx);
        lemma_pull_magnitude_nonneg(mass, dist_sq, dy);
        assert(abs(-dx) == abs(dx) && abs(-dy) == abs(dy));
        let mx = pull_magnitude(mass, dist_sq, dx);
        let my = pull_magnitude(mass, dist_sq, dy);
        assert(pull_magnitude(mass, dist_sq, -dx) == mx);
        assert(pull_magnitude(mass, dist_sq, -dy) == my);
        assert(axis_pull(mass, dist_sq, dx) * dx >= 0) by (nonlinear_arith)
            requires
                axis_pull(mass, dist_sq, dx) == (if dx < 0 { -mx } else { mx }),
                0 <= mx,
        ;
        assert(axis_pull(mass, dist_sq, dy) * dy >= 0) by (nonlinear_arith)
            requires
                axis_pull(mass, dist_sq, dy) == (if dy < 0 { -my } else { my }),
                0 <= my,
        ;
    }
}

/// A pull component beyond `ACCEL_LIMIT` either way is replaced by exactly
/// `ACCEL_LIMIT` with its own sign; any other is kept as it is.
pub proof fn lemma_clamp_keeps_sign(raw: int)
    ensures
        raw > ACCEL_LIMIT ==> clamped(raw) == ACCEL_LIMIT,
        raw < -ACCEL_LIMIT ==> clamped(raw) == -ACCEL_LIMIT,
        abs(raw) <= ACCEL_LIMIT ==> clamped(raw) == raw,
        clamped(raw) * raw >= 0,
{
    assert(clamped(raw) * raw >= 0) by (nonlinear_arith)
        requires
            raw > 0 ==> clamped(raw) > 0,
            raw < 0 ==> clamped(raw) < 0,
            raw == 0 ==> clamped(raw) == 0,
    ;
}

/// One pairwise acceleration component limited to `ACCEL_LIMIT` either way,
/// keeping its sign.
pub fn clamp_accel(raw: i128) -> (r: i64)
    ensures
        r as int == clamped(raw as int),
        -ACCEL_LIMIT <= r <= ACCEL_LIMIT,
{
    if raw > ACCEL_LIMIT as i128 {
        ACCEL_LIMIT
    } else if raw < -(ACCEL_LIMIT as i128) {
        -ACCEL_LIMIT
    } else {
        raw as i64
    }
}

} // verus!

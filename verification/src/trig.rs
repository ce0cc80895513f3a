//! Sines and cosines of fixed-point angles.
//!
//! An angle is reduced to an eighth of a turn, its sine is taken from a
//! polynomial, and its cosine from the sine by a square root, so that the
//! pair always lies within one part in 2^31 of the unit circle.

use vstd::prelude::*;
use crate::fixed::{floor_sqrt, is_floor_sqrt, isqrt, lemma_floor_sqrt_nonnegative, Fixed, SCALE};

verus! {

/// The raw value of an eighth of a turn: a quarter of pi, rounded down.
pub const QUARTER_PI: i64 = 3_373_259_426;

/// The raw value of a full turn: eight eighths.
pub const FULL_TURN: i64 = 26_986_075_408;

/// One step of the sine polynomial: `1 - (z * t) / k`, on raw values.
pub open spec fn sine_step(z: int, t: int, k: int) -> int {
    SCALE - (z * t / (SCALE as int)) / k
}

/// The sine of `p`, a raw angle between zero and an eighth of a turn:
/// the polynomial `p - p^3/3! + p^5/5! - ... - p^11/11!`, each product rounded down.
pub open spec fn sine_poly(p: int) -> int {
    let z = p * p / (SCALE as int);
    let t1 = sine_step(z, SCALE as int, 110);
    let t2 = sine_step(z, t1, 72);
    let t3 = sine_step(z, t2, 42);
    let t4 = sine_step(z, t3, 20);
    let t5 = sine_step(z, t4, 6);
    p * t5 / (SCALE as int)
}

/// The sine and cosine of an angle in the eighth of a turn numbered `k`,
/// from the sine `s` and cosine `c` of its distance to the nearest axis.
pub open spec fn octant_pair(k: int, s: int, c: int) -> (int, int) {
    if k == 0 {
        (s, c)
    } else if k == 1 {
        (c, s)
    } else if k == 2 {
        (c, -s)
    } else if k == 3 {
        (s, -c)
    } else if k == 4 {
        (-s, -c)
    } else if k == 5 {
        (-c, -s)
    } else if k == 6 {
        (-c, s)
    } else {
        (-s, c)
    }
}

/// The magnitude of a raw angle, with the one value that has none in range
/// taken as the largest.
pub open spec fn angle_magnitude(raw: int) -> int {
    if raw == i64::MIN {
        i64::MAX as int
    } else if raw < 0 {
        -raw
    } else {
        raw
    }
}

/// A rotation of the plane, held as the sine and cosine of its angle.
#[derive(Clone, Copy, Debug, PartialEq, Eq, Structural)]
pub struct Rotation {
    pub sin: Fixed,
    pub cos: Fixed,
}

/// A step of the polynomial stays between zero and one.
proof fn lemma_sine_step_bounds(z: int, t: int, k: int)
    by (nonlinear_arith)
    requires
        0 <= z < SCALE,
        0 <= t <= SCALE,
        k >= 1,
        SCALE == 0x1_0000_0000,
    ensures
        0 <= z * t <= 0x1_0000_0000 * 0x1_0000_0000,
        0 <= z * t / (SCALE as int) <= z,
        0 < sine_step(z, t, k) <= SCALE,
{
    assert(z * t <= z * SCALE);
    assert(z * t / (SCALE as int) <= z);
    assert((z * t / (SCALE as int)) / k <= z * t / (SCALE as int));
}

/// The polynomial stays between zero and its argument.
pub proof fn lemma_sine_poly_bounds(p: int)
    requires
        0 <= p <= QUARTER_PI,
    ensures
        0 <= sine_poly(p) <= p,
{
    let z = p * p / (SCALE as int);
    assert(0 <= z < SCALE && 0 <= p * p) by (nonlinear_arith)
        requires
            0 <= p <= 3_373_259_426,
            z == p * p / (SCALE as int),
            SCALE == 0x1_0000_0000;
    let t1 = sine_step(z, SCALE as int, 110);
    lemma_sine_step_bounds(z, SCALE as int, 110);
    let t2 = sine_step(z, t1, 72);
    lemma_sine_step_bounds(z, t1, 72);
    let t3 = sine_step(z, t2, 42);
    lemma_sine_step_bounds(z, t2, 42);
    let t4 = sine_step(z, t3, 20);
    lemma_sine_step_bounds(z, t3, 20);
    let t5 = sine_step(z, t4, 6);
    lemma_sine_step_bounds(z, t4, 6);
    assert(0 <= p * t5 / (SCALE as int) <= p) by (nonlinear_arith)
        requires
            0 <= p,
            0 < t5 <= SCALE,
            SCALE == 0x1_0000_0000,
    {
        assert(p * t5 <= p * SCALE);
    }
}

/// One step of the sine polynomial.
fn sine_step_raw(z: u64, t: u64, k: u64) -> (r: u64)
    requires
        z < SCALE,
        t <= SCALE,
        k >= 1,
    ensures
        r == sine_step(z as int, t as int, k as int),
        0 < r <= SCALE,
{
    proof {
        lemma_sine_step_bounds(z as int, t as int, k as int);
    }
    let prod: u128 = (z as u128) * (t as u128);
    let scaled: u128 = prod / 0x1_0000_0000;
    0x1_0000_0000 - (scaled / (k as u128)) as u64
}

/// The sine of a raw angle between zero and an eighth of a turn.
fn sine_poly_raw(p: u64) -> (r: u64)
    requires
        p <= QUARTER_PI,
    ensures
        r == sine_poly(p as int),
        r <= p,
{
    proof {
        lemma_sine_poly_bounds(p as int);
    }
    assert(0 <= p * p < 0x1_0000_0000 * 0x1_0000_0000) by (nonlinear_arith)
        requires
            0 <= p <= 3_373_259_426;
    let z: u64 = (((p as u128) * (p as u128)) / 0x1_0000_0000) as u64;
    let t1: u64 = sine_step_raw(z, 0x1_0000_0000, 110);
    let t2: u64 = sine_step_raw(z, t1, 72);
    let t3: u64 = sine_step_raw(z, t2, 42);
    let t4: u64 = sine_step_raw(z, t3, 20);
    let t5: u64 = sine_step_raw(z, t4, 6);
    assert(0 <= p * t5 <= 0x1_0000_0000 * 0x1_0000_0000) by (nonlinear_arith)
        requires
            0 <= p <= 3_373_259_426,
            0 < t5 <= 0x1_0000_0000;
    (((p as u128) * (t5 as u128)) / 0x1_0000_0000) as u64
}

impl Rotation {
    /// The sine and cosine lie in `[-1, 1]`, and the sum of their squares
    /// falls short of one by at most 2^-31.
    pub open spec fn is_unit(self) -> bool {
        &&& -SCALE <= self.sin.raw <= SCALE
        &&& -SCALE <= self.cos.raw <= SCALE
        &&& 0 <= SCALE * SCALE - (self.sin.raw * self.sin.raw + self.cos.raw * self.cos.raw)
            <= 2 * SCALE
    }

    /// The rotation by the opposite angle.
    pub open spec fn spec_inverse(self) -> Rotation {
        Rotation { sin: self.sin.spec_neg(), cos: self.cos }
    }

    /// The rotation by `angle` radians.
    pub open spec fn spec_from_angle(angle: Fixed) -> Rotation {
        let a = angle_magnitude(angle.raw as int);
        let r = a % (FULL_TURN as int);
        let k = r / (QUARTER_PI as int);
        let rho = r % (QUARTER_PI as int);
        let phi = if k % 2 == 0 {
            rho
        } else {
            QUARTER_PI - rho
        };
        let s = sine_poly(phi);
        let c = floor_sqrt(SCALE * SCALE - s * s);
        let pair = octant_pair(k, s, c);
        Rotation {
            sin: Fixed {
                raw: (if angle.raw < 0 {
                    -pair.0
                } else {
                    pair.0
                }) as i64,
            },
            cos: Fixed { raw: pair.1 as i64 },
        }
    }

    /// The rotation by `angle` radians.
    pub fn from_angle(angle: Fixed) -> (r: Rotation)
        ensures
            r == Rotation::spec_from_angle(angle),
            r.is_unit(),
    {
        let a: u64 = if angle.raw == i64::MIN {
            i64::MAX as u64
        } else if angle.raw < 0 {
            (-angle.raw) as u64
        } else {
            angle.raw as u64
        };
        let r: u64 = a % 26_986_075_408;
        let k: u64 = r / 3_373_259_426;
        let rho: u64 = r % 3_373_259_426;
        let phi: u64 = if k % 2 == 0 {
            rho
        } else {
            3_373_259_426 - rho
        };
        let s: u64 = sine_poly_raw(phi);
        assert(0 <= s * s <= 0x1_0000_0000 * 0x1_0000_0000) by (nonlinear_arith)
            requires
                0 <= s <= 3_373_259_426;
        let rest: u128 = 0x1_0000_0000 * 0x1_0000_0000 - (s as u128) * (s as u128);
        let c: u64 = isqrt(rest);
        assert(c <= 0x1_0000_0000 && 0 <= rest - c * c <= 2 * c) by (nonlinear_arith)
            requires
                is_floor_sqrt(rest as int, c as int),
                rest <= 0x1_0000_0000 * 0x1_0000_0000,
        {
            if c > 0x1_0000_0000 {
                assert(c * c >= 0x1_0000_0001 * 0x1_0000_0001);
            }
        }
        let si: i64 = s as i64;
        let ci: i64 = c as i64;
        let (sn, cs): (i64, i64) = if k == 0 {
            (si, ci)
        } else if k == 1 {
            (ci, si)
        } else if k == 2 {
            (ci, -si)
        } else if k == 3 {
            (si, -ci)
        } else if k == 4 {
            (-si, -ci)
        } else if k == 5 {
            (-ci, -si)
        } else if k == 6 {
            (-ci, si)
        } else {
            (-si, ci)
        };
        assert(sn * sn + cs * cs == si * si + ci * ci) by (nonlinear_arith)
            requires
                (sn == si || sn == -si) && (cs == ci || cs == -ci) || (sn == ci || sn == -ci) && (
                cs == si || cs == -si);
        let signed: i64 = if angle.raw < 0 {
            -sn
        } else {
            sn
        };
        assert(signed * signed == sn * sn) by (nonlinear_arith)
            requires
                signed == sn || signed == -sn;
        Rotation { sin: Fixed { raw: signed }, cos: Fixed { raw: cs } }
    }

    /// The rotation by the opposite angle.
    pub fn inverse(self) -> (r: Rotation)
        ensures
            r == self.spec_inverse(),
    {
        Rotation { sin: self.sin.neg(), cos: self.cos }
    }
}

/// Turning the other way by the same angle is the inverse rotation.
pub proof fn lemma_from_angle_neg(angle: Fixed)
    ensures
        Rotation::spec_from_angle(angle.spec_neg()) == Rotation::spec_from_angle(
            angle,
        ).spec_inverse(),
{
    let a = angle_magnitude(angle.raw as int);
    let r = a % (FULL_TURN as int);
    let k = r / (QUARTER_PI as int);
    let rho = r % (QUARTER_PI as int);
    let phi = if k % 2 == 0 {
        rho
    } else {
        QUARTER_PI - rho
    };
    lemma_sine_poly_bounds(phi);
    let s = sine_poly(phi);
    let rest = SCALE * SCALE - s * s;
    assert(0 <= s * s <= SCALE * SCALE) by (nonlinear_arith)
        requires
            0 <= s <= SCALE;
    lemma_floor_sqrt_range(rest);
}

/// The rounded-down square root of a number up to one (squared scale) is up to one.
pub proof fn lemma_floor_sqrt_range(n: int)
    requires
        0 <= n <= SCALE * SCALE,
    ensures
        is_floor_sqrt(n, floor_sqrt(n)),
        0 <= floor_sqrt(n) <= SCALE,
{
    lemma_floor_sqrt_nonnegative(n);
    let c = floor_sqrt(n);
    assert(c <= SCALE) by (nonlinear_arith)
        requires
            c >= 0,
            c * c <= n,
            n <= SCALE * SCALE,
            SCALE > 0,
    {
        if c > SCALE {
            assert(c * c >= (SCALE + 1) * (SCALE + 1));
        }
    }
}

/// The rotation by any angle lies on the unit circle, to within rounding.
pub proof fn lemma_from_angle_is_unit(angle: Fixed)
    ensures
        Rotation::spec_from_angle(angle).is_unit(),
{
    let a = angle_magnitude(angle.raw as int);
    let r = a % (FULL_TURN as int);
    let k = r / (QUARTER_PI as int);
    let rho = r % (QUARTER_PI as int);
    let phi = if k % 2 == 0 {
        rho
    } else {
        QUARTER_PI - rho
    };
    lemma_sine_poly_bounds(phi);
    let s = sine_poly(phi);
    let rest = SCALE * SCALE - s * s;
    assert(0 <= s * s <= SCALE * SCALE) by (nonlinear_arith)
        requires
            0 <= s <= SCALE;
    lemma_floor_sqrt_range(rest);
    let c = floor_sqrt(rest);
    assert(0 <= rest - c * c <= 2 * SCALE) by (nonlinear_arith)
        requires
            is_floor_sqrt(rest, c),
            0 <= c <= SCALE;
    let pair = octant_pair(k, s, c);
    assert(pair.0 * pair.0 + pair.1 * pair.1 == s * s + c * c) by (nonlinear_arith)
        requires
            (pair.0 == s || pair.0 == -s) && (pair.1 == c || pair.1 == -c) || (pair.0 == c
                || pair.0 == -c) && (pair.1 == s || pair.1 == -s);
    assert((-pair.0) * (-pair.0) == pair.0 * pair.0) by (nonlinear_arith);
}

} // verus!

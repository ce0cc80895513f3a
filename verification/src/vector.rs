//! Points and vectors of the plane.

use vstd::prelude::*;
use crate::fixed::{
    floor_sqrt, isqrt, lemma_floor_sqrt_nonnegative, magnitude, saturate, Fixed,
};
use crate::trig::Rotation;

verus! {

/// A displacement in the plane.
#[derive(Clone, Copy, Debug, PartialEq, Eq, Structural)]
pub struct Vector {
    pub x: Fixed,
    pub y: Fixed,
}

/// A position in the plane.
#[derive(Clone, Copy, Debug, PartialEq, Eq, Structural)]
pub struct Point {
    pub x: Fixed,
    pub y: Fixed,
}

/// The magnitude of a raw coordinate as an unsigned number.
fn wide_magnitude(v: i64) -> (m: u128)
    ensures
        m == magnitude(v as int),
        m <= 0x8000_0000_0000_0000,
{
    if v < 0 {
        (-(v as i128)) as u128
    } else {
        v as u128
    }
}

impl Vector {
    /// The vector of no length.
    pub open spec fn spec_zero() -> Vector {
        Vector { x: Fixed::spec_zero(), y: Fixed::spec_zero() }
    }

    /// The sum, coordinate by coordinate.
    pub open spec fn spec_add(self, other: Vector) -> Vector {
        Vector { x: self.x.spec_add(other.x), y: self.y.spec_add(other.y) }
    }

    /// The difference, coordinate by coordinate.
    pub open spec fn spec_sub(self, other: Vector) -> Vector {
        Vector { x: self.x.spec_sub(other.x), y: self.y.spec_sub(other.y) }
    }

    /// The opposite vector.
    pub open spec fn spec_neg(self) -> Vector {
        Vector { x: self.x.spec_neg(), y: self.y.spec_neg() }
    }

    /// The vector `k` times as long.
    pub open spec fn spec_scale(self, k: Fixed) -> Vector {
        Vector { x: self.x.spec_mul(k), y: self.y.spec_mul(k) }
    }

    /// The dot product: the sum of the products of the coordinates.
    pub open spec fn spec_dot(self, other: Vector) -> Fixed {
        self.x.spec_mul(other.x).spec_add(self.y.spec_mul(other.y))
    }

    /// The vector turned a quarter turn: `(-y, x)`.
    pub open spec fn spec_perp(self) -> Vector {
        Vector { x: self.y.spec_neg(), y: self.x }
    }

    /// The Euclidean length, rounded down and saturating.
    pub open spec fn spec_length(self) -> Fixed {
        Fixed {
            raw: saturate(floor_sqrt(self.x.raw * self.x.raw + self.y.raw * self.y.raw)) as i64,
        }
    }

    /// The vector divided by its length; none where the length is zero.
    pub open spec fn spec_normalized(self) -> Option<Vector> {
        let len = self.spec_length();
        if len.raw == 0 {
            None
        } else {
            Some(Vector { x: self.x.spec_div(len), y: self.y.spec_div(len) })
        }
    }

    /// The vector turned by `rot`: `(x cos - y sin, x sin + y cos)`.
    pub open spec fn spec_rotated(self, rot: Rotation) -> Vector {
        Vector {
            x: self.x.spec_mul(rot.cos).spec_sub(self.y.spec_mul(rot.sin)),
            y: self.x.spec_mul(rot.sin).spec_add(self.y.spec_mul(rot.cos)),
        }
    }

    /// The vector mirrored in the line across `normal`: `v - 2 (v . n) n`.
    pub open spec fn spec_reflected(self, normal: Vector) -> Vector {
        let twice = self.spec_dot(normal).spec_mul(Fixed::spec_from_int(2));
        self.spec_sub(normal.spec_scale(twice))
    }

    /// The vector of the given coordinates.
    pub fn new(x: Fixed, y: Fixed) -> (r: Vector)
        ensures
            r == (Vector { x, y }),
    {
        Vector { x, y }
    }

    /// The vector of no length.
    pub fn zero() -> (r: Vector)
        ensures
            r == Vector::spec_zero(),
    {
        Vector { x: Fixed::zero(), y: Fixed::zero() }
    }

    /// The sum, coordinate by coordinate.
    pub fn add(self, other: Vector) -> (r: Vector)
        ensures
            r == self.spec_add(other),
    {
        Vector { x: self.x.add(other.x), y: self.y.add(other.y) }
    }

    /// The difference, coordinate by coordinate.
    pub fn sub(self, other: Vector) -> (r: Vector)
        ensures
            r == self.spec_sub(other),
    {
        Vector { x: self.x.sub(other.x), y: self.y.sub(other.y) }
    }

    /// The opposite vector.
    pub fn neg(self) -> (r: Vector)
        ensures
            r == self.spec_neg(),
    {
        Vector { x: self.x.neg(), y: self.y.neg() }
    }

    /// The vector `k` times as long.
    pub fn scale(self, k: Fixed) -> (r: Vector)
        ensures
            r == self.spec_scale(k),
    {
        Vector { x: self.x.mul(k), y: self.y.mul(k) }
    }

    /// The dot product.
    pub fn dot(self, other: Vector) -> (r: Fixed)
        ensures
            r == self.spec_dot(other),
    {
        self.x.mul(other.x).add(self.y.mul(other.y))
    }

    /// The vector turned a quarter turn: `(-y, x)`.
    pub fn perp(self) -> (r: Vector)
        ensures
            r == self.spec_perp(),
    {
        Vector { x: self.y.neg(), y: self.x }
    }

    /// The Euclidean length, rounded down and saturating. It is zero for
    /// the zero vector alone.
    pub fn length(self) -> (r: Fixed)
        ensures
            r == self.spec_length(),
            r.raw >= 0,
            r.raw == 0 <==> self.x.raw == 0 && self.y.raw == 0,
    {
        let ax: u128 = wide_magnitude(self.x.raw);
        let ay: u128 = wide_magnitude(self.y.raw);
        assert(ax * ax <= 0x4000_0000_0000_0000_0000_0000_0000_0000 && ax * ax == self.x.raw
            * self.x.raw && (ax * ax == 0 ==> ax == 0)) by (nonlinear_arith)
            requires
                0 <= ax <= 0x8000_0000_0000_0000,
                ax == self.x.raw || ax == -self.x.raw;
        assert(ay * ay <= 0x4000_0000_0000_0000_0000_0000_0000_0000 && ay * ay == self.y.raw
            * self.y.raw && (ay * ay == 0 ==> ay == 0)) by (nonlinear_arith)
            requires
                0 <= ay <= 0x8000_0000_0000_0000,
                ay == self.y.raw || ay == -self.y.raw;
        let sum: u128 = ax * ax + ay * ay;
        let root: u64 = isqrt(sum);
        assert(root == 0 <==> sum == 0) by (nonlinear_arith)
            requires
                root >= 0,
                root * root <= sum,
                sum < (root + 1) * (root + 1);
        if root > i64::MAX as u64 {
            Fixed { raw: i64::MAX }
        } else {
            Fixed { raw: root as i64 }
        }
    }

    /// The vector divided by its length; none for the zero vector.
    pub fn normalized(self) -> (r: Option<Vector>)
        ensures
            r == self.spec_normalized(),
            r.is_none() <==> self.x.raw == 0 && self.y.raw == 0,
    {
        let len = self.length();
        if len.raw == 0 {
            None
        } else {
            Some(Vector { x: self.x.div(len), y: self.y.div(len) })
        }
    }

    /// The vector turned by `rot`.
    pub fn rotated(self, rot: Rotation) -> (r: Vector)
        ensures
            r == self.spec_rotated(rot),
    {
        Vector {
            x: self.x.mul(rot.cos).sub(self.y.mul(rot.sin)),
            y: self.x.mul(rot.sin).add(self.y.mul(rot.cos)),
        }
    }

    /// The vector mirrored in the line across `normal`.
    pub fn reflected(self, normal: Vector) -> (r: Vector)
        ensures
            r == self.spec_reflected(normal),
    {
        let twice = self.dot(normal).mul(Fixed::from_int(2));
        self.sub(normal.scale(twice))
    }
}

impl Point {
    /// The point where both coordinates are zero.
    pub open spec fn spec_origin() -> Point {
        Point { x: Fixed::spec_zero(), y: Fixed::spec_zero() }
    }

    /// The point moved by `v`.
    pub open spec fn spec_offset(self, v: Vector) -> Point {
        Point { x: self.x.spec_add(v.x), y: self.y.spec_add(v.y) }
    }

    /// The displacement from `other` to this point.
    pub open spec fn spec_minus(self, other: Point) -> Vector {
        Vector { x: self.x.spec_sub(other.x), y: self.y.spec_sub(other.y) }
    }

    /// The point turned by `rot` about `center`.
    pub open spec fn spec_rotated_about(self, rot: Rotation, center: Point) -> Point {
        center.spec_offset(self.spec_minus(center).spec_rotated(rot))
    }

    /// The point of the given coordinates.
    pub fn new(x: Fixed, y: Fixed) -> (r: Point)
        ensures
            r == (Point { x, y }),
    {
        Point { x, y }
    }

    /// The point where both coordinates are zero.
    pub fn origin() -> (r: Point)
        ensures
            r == Point::spec_origin(),
    {
        Point { x: Fixed::zero(), y: Fixed::zero() }
    }

    /// The point moved by `v`.
    pub fn offset(self, v: Vector) -> (r: Point)
        ensures
            r == self.spec_offset(v),
    {
        Point { x: self.x.add(v.x), y: self.y.add(v.y) }
    }

    /// The displacement from `other` to this point.
    pub fn minus(self, other: Point) -> (r: Vector)
        ensures
            r == self.spec_minus(other),
    {
        Vector { x: self.x.sub(other.x), y: self.y.sub(other.y) }
    }

    /// The point turned by `rot` about `center`.
    pub fn rotated_about(self, rot: Rotation, center: Point) -> (r: Point)
        ensures
            r == self.spec_rotated_about(rot, center),
    {
        center.offset(self.minus(center).rotated(rot))
    }
}

/// A length is not negative.
pub proof fn lemma_length_nonnegative(v: Vector)
    ensures
        v.spec_length().raw >= 0,
{
    let n = v.x.raw * v.x.raw + v.y.raw * v.y.raw;
    assert(n >= 0) by (nonlinear_arith)
        requires
            n == v.x.raw * v.x.raw + v.y.raw * v.y.raw;
    lemma_floor_sqrt_nonnegative(n);
}

} // verus!

//! What holds of turning: a turn and the opposite turn cancel, to within rounding.

use vstd::prelude::*;
use crate::fixed::{lemma_trunc_div_bounds, magnitude, trunc_div, Fixed, SCALE};
use crate::shape::rotate_lines;
use crate::trig::{lemma_from_angle_is_unit, lemma_from_angle_neg, Rotation};
use crate::vector::Point;

verus! {

/// The largest raw coordinate for which a turn about a center as large
/// cannot leave the range: 2^59.
pub const TURN_RANGE: i64 = 0x0800_0000_0000_0000;

/// Whether both coordinates of the point are within the range that can be turned.
pub open spec fn can_turn(p: Point) -> bool {
    &&& -TURN_RANGE <= p.x.raw <= TURN_RANGE
    &&& -TURN_RANGE <= p.y.raw <= TURN_RANGE
}

/// How far, in raw units, a coordinate may be from where it started after
/// a turn and the opposite turn, when it lay `offset` from the center: six
/// units of rounding, and one part in 2^31 of the offset.
pub open spec fn round_trip_tolerance(offset: int) -> int {
    6 + magnitude(offset) / 0x8000_0000
}

/// The x coordinate of `(d, o)` turned by the rotation of cosine `c` and sine
/// `s`, on raw values, each product scaled back and rounded.
pub open spec fn turned_x(d: int, o: int, c: int, s: int) -> int {
    trunc_div(d * c, SCALE as int) - trunc_div(o * s, SCALE as int)
}

/// The y coordinate of `(d, o)` turned by the rotation of cosine `c` and sine `s`.
pub open spec fn turned_y(d: int, o: int, c: int, s: int) -> int {
    trunc_div(d * s, SCALE as int) + trunc_div(o * c, SCALE as int)
}

/// What a product is short of after it is scaled back and rounded.
proof fn lemma_scaled_product(a: int, b: int)
    requires
        -SCALE <= b <= SCALE,
    ensures
        -SCALE < a * b - trunc_div(a * b, SCALE as int) * SCALE < SCALE,
        magnitude(trunc_div(a * b, SCALE as int)) <= magnitude(a),
{
    let one = SCALE as int;
    lemma_trunc_div_bounds(a * b, one);
    let q = trunc_div(a * b, one);
    assert(magnitude(q) <= magnitude(a)) by (nonlinear_arith)
        requires
            one > 0,
            -one <= b <= one,
            a * b >= 0 ==> 0 <= q * one <= a * b,
            a * b <= 0 ==> a * b <= q * one <= 0,
    {
        assert(a * b <= magnitude(a) * one && a * b >= -(magnitude(a) * one));
        if q > magnitude(a) {
            assert(q * one >= (magnitude(a) + 1) * one);
        }
        if q < -magnitude(a) {
            assert(q * one <= (-magnitude(a) - 1) * one);
        }
    }
}

/// A turned vector is no longer than the sum of its coordinates, and short
/// of the exact turn by less than two units of rounding.
proof fn lemma_turned(d: int, o: int, c: int, s: int)
    requires
        -SCALE <= c <= SCALE,
        -SCALE <= s <= SCALE,
    ensures
        magnitude(turned_x(d, o, c, s)) <= magnitude(d) + magnitude(o),
        magnitude(turned_y(d, o, c, s)) <= magnitude(d) + magnitude(o),
        -2 * SCALE < SCALE * turned_x(d, o, c, s) - (d * c - o * s) < 2 * SCALE,
        -2 * SCALE < SCALE * turned_y(d, o, c, s) - (d * s + o * c) < 2 * SCALE,
{
    let one = SCALE as int;
    lemma_scaled_product(d, c);
    lemma_scaled_product(o, s);
    lemma_scaled_product(d, s);
    lemma_scaled_product(o, c);
    let a1 = trunc_div(d * c, one);
    let a2 = trunc_div(o * s, one);
    let a3 = trunc_div(d * s, one);
    let a4 = trunc_div(o * c, one);
    assert(one * (a1 - a2) == a1 * one - a2 * one && one * (a3 + a4) == a3 * one + a4 * one)
        by (nonlinear_arith);
}

/// The magnitude of a product is below the product of bounds on its factors.
proof fn lemma_product_within(a: int, b: int, m: int, n: int)
    by (nonlinear_arith)
    requires
        -m < a < m,
        -n <= b <= n,
        n > 0,
    ensures
        -(m * n) < a * b < m * n,
{
    assert((m - 1) * n < m * n);
    if a >= 0 && b >= 0 {
        assert(a * b <= (m - 1) * n);
    } else if a >= 0 {
        assert(a * (-b) <= (m - 1) * n);
    } else if b >= 0 {
        assert((-a) * b <= (m - 1) * n);
    } else {
        assert((-a) * (-b) <= (m - 1) * n);
    }
}

/// A common positive factor can be struck from both sides of an inequality.
proof fn lemma_cancel(one: int, u: int, v: int)
    by (nonlinear_arith)
    requires
        one > 0,
        one * u < one * v,
    ensures
        u < v,
{
}

/// The turn and the turn back, multiplied out.
proof fn lemma_round_trip_expanded(
    one: int,
    c: int,
    s: int,
    d: int,
    o: int,
    x1: int,
    y1: int,
    x2: int,
    e1: int,
    e2: int,
    e3: int,
)
    requires
        one * x1 == d * c - o * s + e1,
        one * y1 == d * s + o * c + e2,
        one * x2 == x1 * c + y1 * s + e3,
    ensures
        one * (one * (x2 - d)) == -(d * (one * one - (s * s + c * c))) + e1 * c + e2 * s + one
            * e3,
{
    let u = one * x1;
    let v = one * y1;
    assert(one * (one * x2) == u * c + v * s + one * e3) by (nonlinear_arith)
        requires
            one * x2 == x1 * c + y1 * s + e3,
            u == one * x1,
            v == one * y1,
    {
        assert(one * (x1 * c) == (one * x1) * c);
        assert(one * (y1 * s) == (one * y1) * s);
    }
    assert(u * c == d * (c * c) - o * (s * c) + e1 * c) by (nonlinear_arith)
        requires
            u == d * c - o * s + e1,
    ;
    assert(v * s == d * (s * s) + o * (s * c) + e2 * s) by (nonlinear_arith)
        requires
            v == d * s + o * c + e2,
    ;
    assert(d * (one * one - (s * s + c * c)) == one * (one * d) - d * (s * s) - d * (c * c))
        by (nonlinear_arith);
    assert(one * (one * (x2 - d)) == one * (one * x2) - one * (one * d)) by (nonlinear_arith);
}

/// From a bound on the scaled distance to the tolerance.
proof fn lemma_tolerance(gap: int, offset: int)
    requires
        -(2 * magnitude(offset) + 6 * SCALE) < SCALE * gap < 2 * magnitude(offset) + 6 * SCALE,
    ensures
        magnitude(gap) <= round_trip_tolerance(offset),
{
    let q = magnitude(offset) / 0x8000_0000;
    assert(2 * magnitude(offset) < 0x1_0000_0000 * (q + 1));
}

/// The heart of the round trip, on raw values: `x1` and `y1` are `d` and `o`
/// turned by `(c, s)` with rounding errors `e1` and `e2`, and `x2` is the
/// first coordinate of `(x1, y1)` turned back with rounding error `e3`.
proof fn lemma_round_trip_core(
    c: int,
    s: int,
    d: int,
    o: int,
    x1: int,
    y1: int,
    x2: int,
    e1: int,
    e2: int,
    e3: int,
)
    requires
        -SCALE <= c <= SCALE,
        -SCALE <= s <= SCALE,
        0 <= SCALE * SCALE - (s * s + c * c) <= 2 * SCALE,
        -2 * SCALE < e1 < 2 * SCALE,
        -2 * SCALE < e2 < 2 * SCALE,
        -2 * SCALE < e3 < 2 * SCALE,
        SCALE * x1 == d * c - o * s + e1,
        SCALE * y1 == d * s + o * c + e2,
        SCALE * x2 == x1 * c + y1 * s + e3,
    ensures
        magnitude(x2 - d) <= round_trip_tolerance(d),
{
    let one = SCALE as int;
    let k = one * one - (s * s + c * c);
    lemma_round_trip_expanded(one, c, s, d, o, x1, y1, x2, e1, e2, e3);
    lemma_product_within(e1, c, 2 * one, one);
    lemma_product_within(e2, s, 2 * one, one);
    lemma_product_within(e3, one, 2 * one, one);
    assert(one * e3 == e3 * one) by (nonlinear_arith);
    assert((2 * one) * one == 0x2_0000_0000_0000_0000);
    assert(-(magnitude(d) * 0x2_0000_0000) <= d * k <= magnitude(d) * 0x2_0000_0000)
        by (nonlinear_arith)
        requires
            0 <= k <= 0x2_0000_0000;
    let gap = one * (x2 - d);
    let bound = 2 * magnitude(d) + 6 * one;
    assert(one * bound == magnitude(d) * 0x2_0000_0000 + 6 * 0x1_0000_0000_0000_0000)
        by (nonlinear_arith)
        requires
            bound == 2 * magnitude(d) + 6 * one,
            one == 0x1_0000_0000;
    assert(one * (-bound) == -(one * bound)) by (nonlinear_arith);
    assert(one * gap < one * bound);
    assert(one * (-bound) < one * gap);
    lemma_cancel(one, gap, bound);
    lemma_cancel(one, -bound, gap);
    lemma_tolerance(x2 - d, d);
}

/// The round trip on raw values: a vector turned by a rotation on the unit
/// circle and turned back by its inverse.
proof fn lemma_round_trip_raw(d: int, o: int, c: int, s: int)
    requires
        -SCALE <= c <= SCALE,
        -SCALE <= s <= SCALE,
        0 <= SCALE * SCALE - (s * s + c * c) <= 2 * SCALE,
    ensures
        ({
            let x1 = turned_x(d, o, c, s);
            let y1 = turned_y(d, o, c, s);
            &&& magnitude(turned_x(x1, y1, c, -s) - d) <= round_trip_tolerance(d)
            &&& magnitude(turned_y(x1, y1, c, -s) - o) <= round_trip_tolerance(o)
        }),
{
    let one = SCALE as int;
    let x1 = turned_x(d, o, c, s);
    let y1 = turned_y(d, o, c, s);
    let x2 = turned_x(x1, y1, c, -s);
    let y2 = turned_y(x1, y1, c, -s);
    lemma_turned(d, o, c, s);
    lemma_turned(x1, y1, c, -s);
    assert(y1 * (-s) == -(y1 * s) && x1 * (-s) == -(x1 * s)) by (nonlinear_arith);
    let e1 = one * x1 - (d * c - o * s);
    let e2 = one * y1 - (d * s + o * c);
    let e3 = one * x2 - (x1 * c + y1 * s);
    let e4 = one * y2 - (y1 * c - x1 * s);
    lemma_round_trip_core(c, s, d, o, x1, y1, x2, e1, e2, e3);
    // The second coordinate is the first of the same vectors turned a
    // quarter turn: (o, -d) becomes (y1, -x1).
    assert(o * c - (-d) * s == d * s + o * c && o * s + (-d) * c == -(d * c - o * s) && y1 * c
        + (-x1) * s == y1 * c - x1 * s) by (nonlinear_arith);
    assert(one * (-x1) == -(one * x1)) by (nonlinear_arith);
    lemma_round_trip_core(c, s, o, -d, y1, -x1, y2, e2, -e1, e4);
}

/// A point turned about a center, where nothing leaves the range: the
/// center moved by the turned offset.
proof fn lemma_rotated_about(p: Point, rot: Rotation, center: Point)
    requires
        -SCALE <= rot.cos.raw <= SCALE,
        -SCALE <= rot.sin.raw <= SCALE,
        can_turn(center),
        -4 * TURN_RANGE <= p.x.raw - center.x.raw <= 4 * TURN_RANGE,
        -4 * TURN_RANGE <= p.y.raw - center.y.raw <= 4 * TURN_RANGE,
    ensures
        ({
            let d = p.x.raw - center.x.raw;
            let o = p.y.raw - center.y.raw;
            let turned = p.spec_rotated_about(rot, center);
            &&& turned.x.raw == center.x.raw + turned_x(d, o, rot.cos.raw as int, rot.sin.raw as int)
            &&& turned.y.raw == center.y.raw + turned_y(d, o, rot.cos.raw as int, rot.sin.raw as int)
            &&& magnitude(turned.x.raw - center.x.raw) <= magnitude(d) + magnitude(o)
            &&& magnitude(turned.y.raw - center.y.raw) <= magnitude(d) + magnitude(o)
        }),
{
    let c = rot.cos.raw as int;
    let s = rot.sin.raw as int;
    let d = p.x.raw - center.x.raw;
    let o = p.y.raw - center.y.raw;
    lemma_turned(d, o, c, s);
    lemma_scaled_product(d, c);
    lemma_scaled_product(o, s);
    lemma_scaled_product(d, s);
    lemma_scaled_product(o, c);
}

/// A point turned about a center, and turned back by the inverse rotation
/// about the same center, ends within the tolerance of where it began.
pub proof fn lemma_point_round_trip(p: Point, rot: Rotation, center: Point)
    requires
        rot.is_unit(),
        can_turn(p),
        can_turn(center),
    ensures
        ({
            let back = p.spec_rotated_about(rot, center).spec_rotated_about(
                rot.spec_inverse(),
                center,
            );
            &&& magnitude(back.x.raw - p.x.raw) <= round_trip_tolerance(p.x.raw - center.x.raw)
            &&& magnitude(back.y.raw - p.y.raw) <= round_trip_tolerance(p.y.raw - center.y.raw)
        }),
{
    let there = p.spec_rotated_about(rot, center);
    lemma_rotated_about(p, rot, center);
    lemma_rotated_about(there, rot.spec_inverse(), center);
    lemma_round_trip_raw(
        p.x.raw - center.x.raw,
        p.y.raw - center.y.raw,
        rot.cos.raw as int,
        rot.sin.raw as int,
    );
}

/// Turning a shape by an angle and then by the opposite angle about the same
/// center brings every point back to within the tolerance of where it was.
pub proof fn lemma_rotation_round_trip(
    lines: Seq<Seq<Point>>,
    angle: Fixed,
    center: Point,
    i: int,
    j: int,
)
    requires
        0 <= i < lines.len(),
        0 <= j < lines[i].len(),
        can_turn(lines[i][j]),
        can_turn(center),
    ensures
        ({
            let there = rotate_lines(lines, Rotation::spec_from_angle(angle), center);
            let back = rotate_lines(there, Rotation::spec_from_angle(angle.spec_neg()), center);
            let p = lines[i][j];
            &&& back.len() == lines.len()
            &&& back[i].len() == lines[i].len()
            &&& magnitude(back[i][j].x.raw - p.x.raw) <= round_trip_tolerance(
                p.x.raw - center.x.raw,
            )
            &&& magnitude(back[i][j].y.raw - p.y.raw) <= round_trip_tolerance(
                p.y.raw - center.y.raw,
            )
        }),
{
    let rot = Rotation::spec_from_angle(angle);
    lemma_from_angle_is_unit(angle);
    lemma_from_angle_neg(angle);
    lemma_point_round_trip(lines[i][j], rot, center);
}

} // verus!

//! Contacts of the ball with one segment of the cage.
//!
//! A contact is found from the distance of the ball's center to the line
//! through the segment and from where along the segment its foot falls:
//! within the segment the contact is the foot, within a radius beyond an end
//! it is that end, and anywhere else there is none.

use vstd::prelude::*;
use crate::ball::Ball;
use crate::fixed::{is_floor_sqrt, lemma_floor_sqrt_unique, trunc_div, Fixed, SCALE};
use crate::shape::Segment;
use crate::trig::Rotation;
use crate::vector::{Point, Vector};

verus! {

/// A contact: where the ball touches, and the direction it is pushed in.
#[derive(Clone, Copy, Debug, PartialEq, Eq, Structural)]
pub struct Collision {
    pub point: Point,
    pub normal: Vector,
}

impl Collision {
    /// The contact turned by `rot` about `center`: its point about the
    /// center, its normal about the origin.
    pub open spec fn spec_rotated(self, rot: Rotation, center: Point) -> Collision {
        Collision {
            point: self.point.spec_rotated_about(rot, center),
            normal: self.normal.spec_rotated(rot),
        }
    }

    /// The contact at `point` that pushes along `normal`.
    pub fn new(point: Point, normal: Vector) -> (r: Collision)
        ensures
            r == (Collision { point, normal }),
    {
        Collision { point, normal }
    }

    /// The contact turned by `angle` radians about `center_of_rotation`.
    pub fn rotate(&self, angle: Fixed, center_of_rotation: Point) -> (r: Collision)
        ensures
            r == self.spec_rotated(Rotation::spec_from_angle(angle), center_of_rotation),
    {
        let rot = Rotation::from_angle(angle);
        Collision {
            point: self.point.rotated_about(rot, center_of_rotation),
            normal: self.normal.rotated(rot),
        }
    }
}

/// The contact with the end `end` of a segment whose normal is `normal`:
/// none where the center of the ball is farther than a radius from the end or
/// lies on it; else the end, with the unit vector toward the center, turned
/// to the side of `normal`.
pub open spec fn spec_end_contact(end: Point, normal: Vector, ball: Ball) -> Option<Collision> {
    let toward = ball.center.spec_minus(end);
    if toward.spec_length().raw > ball.radius.raw {
        None
    } else {
        match toward.spec_normalized() {
            None => None,
            Some(unit) => Some(
                Collision {
                    point: end,
                    normal: if normal.spec_dot(unit).raw > 0 {
                        unit
                    } else {
                        unit.spec_neg()
                    },
                },
            ),
        }
    }
}

/// The contact of `ball` with `segment`, if there is one.
///
/// With `v` from the first end to the second, `n` the unit vector along
/// `(-v.y, v.x)`, `d` the distance of the center from the line along `n`,
/// and `t` the distance of the foot of the center from the first end along
/// `v`: none where the segment has no length or `|d|` is at least the
/// radius; the foot with `n` where `0 < t < |v|`; a contact with the first
/// end where `-radius <= t < 0`, with the second where
/// `|v| < t <= |v| + radius`; none otherwise.
pub open spec fn spec_detect_collision(segment: Segment, ball: Ball) -> Option<Collision> {
    let p1 = segment.0;
    let p2 = segment.1;
    let v = p2.spec_minus(p1);
    let v_length = v.spec_length();
    match v.spec_perp().spec_normalized() {
        None => None,
        Some(n) => {
            let d = ball.center.spec_minus(p1).spec_dot(n);
            if v_length.raw == 0 || d.spec_abs().raw >= ball.radius.raw {
                None
            } else {
                let foot = ball.center.spec_offset(n.spec_scale(d).spec_neg());
                let t = foot.spec_minus(p1).spec_dot(v).spec_div(v_length);
                if 0 < t.raw < v_length.raw {
                    Some(Collision { point: foot, normal: n })
                } else if ball.radius.spec_neg().raw <= t.raw < 0 {
                    spec_end_contact(p1, n, ball)
                } else if v_length.raw < t.raw <= v_length.spec_add(ball.radius).raw {
                    spec_end_contact(p2, n, ball)
                } else {
                    None
                }
            }
        },
    }
}

/// The ball after the contact is resolved: its velocity mirrored in the
/// normal, its center one radius from the contact along the normal.
pub open spec fn spec_resolved(ball: Ball, contact: Collision) -> Ball {
    Ball {
        velocity: ball.velocity.spec_reflected(contact.normal),
        center: contact.point.spec_offset(contact.normal.spec_scale(ball.radius)),
        ..ball
    }
}

/// Resolves one contact: the ball bounces off without loss and is set to
/// touch the contact point.
pub fn resolve(ball: Ball, contact: Collision) -> (r: Ball)
    ensures
        r == spec_resolved(ball, contact),
{
    Ball {
        velocity: ball.velocity.reflected(contact.normal),
        center: contact.point.offset(contact.normal.scale(ball.radius)),
        radius: ball.radius,
    }
}

/// The contact of the ball with one end of a segment.
fn end_contact(end: Point, normal: Vector, ball: Ball) -> (r: Option<Collision>)
    ensures
        r == spec_end_contact(end, normal, ball),
{
    let toward = ball.center.minus(end);
    if toward.length().raw > ball.radius.raw {
        None
    } else {
        match toward.normalized() {
            None => None,
            Some(unit) => {
                let facing = if normal.dot(unit).raw > 0 {
                    unit
                } else {
                    unit.neg()
                };
                Some(Collision { point: end, normal: facing })
            },
        }
    }
}

/// The contact of `ball` with `segment`, if there is one.
pub fn detect_collision(segment: Segment, ball: Ball) -> (r: Option<Collision>)
    ensures
        r == spec_detect_collision(segment, ball),
{
    let p1 = segment.0;
    let p2 = segment.1;
    let v = p2.minus(p1);
    let v_length = v.length();
    match v.perp().normalized() {
        None => None,
        Some(n) => {
            let d = ball.center.minus(p1).dot(n);
            if v_length.raw == 0 || d.abs().raw >= ball.radius.raw {
                None
            } else {
                let foot = ball.center.offset(n.scale(d).neg());
                let t = foot.minus(p1).dot(v).div(v_length);
                if 0 < t.raw && t.raw < v_length.raw {
                    Some(Collision { point: foot, normal: n })
                } else if ball.radius.neg().raw <= t.raw && t.raw < 0 {
                    end_contact(p1, n, ball)
                } else if v_length.raw < t.raw && t.raw <= v_length.add(ball.radius).raw {
                    end_contact(p2, n, ball)
                } else {
                    None
                }
            }
        },
    }
}

/// A ball that falls straight onto a level floor leaves it straight up at
/// the same speed, its center one radius above the contact: with the normal
/// `(0, 1)`, the velocity `(0, -v)` becomes `(0, v)`, for every speed and
/// radius up to 2^29 and every contact point within 2^30 of the origin.
pub proof fn lemma_level_bounce(ball: Ball, point: Point, speed: Fixed)
    requires
        0 <= speed.raw <= 0x2000_0000_0000_0000,
        0 <= ball.radius.raw <= 0x2000_0000_0000_0000,
        -0x4000_0000_0000_0000 <= point.x.raw <= 0x4000_0000_0000_0000,
        -0x4000_0000_0000_0000 <= point.y.raw <= 0x4000_0000_0000_0000,
        ball.velocity == (Vector { x: Fixed::spec_zero(), y: speed.spec_neg() }),
    ensures
        ({
            let floor = Collision {
                point,
                normal: Vector { x: Fixed::spec_zero(), y: Fixed::spec_one() },
            };
            let after = spec_resolved(ball, floor);
            &&& after.velocity == (Vector { x: Fixed::spec_zero(), y: speed })
            &&& after.center.spec_minus(point) == (Vector {
                x: Fixed::spec_zero(),
                y: ball.radius,
            })
            &&& after.center.spec_minus(point).spec_length() == ball.radius
            &&& after.radius == ball.radius
        }),
{
    let one = SCALE as int;
    let v = speed.raw as int;
    let r = ball.radius.raw as int;
    assert(trunc_div(0int * 0int, one) == 0);
    assert(trunc_div((-v) * one, one) == -v) by (nonlinear_arith)
        requires
            v >= 0,
            one == 0x1_0000_0000,
    {
        assert((v * one) / one == v);
    }
    assert(trunc_div((-v) * (2 * one), one) == -2 * v) by (nonlinear_arith)
        requires
            v >= 0,
            one == 0x1_0000_0000,
    {
        assert((v * (2 * one)) / one == 2 * v);
    }
    assert(trunc_div(0int * (-2 * v), one) == 0);
    assert(trunc_div(one * (-2 * v), one) == -2 * v) by (nonlinear_arith)
        requires
            v >= 0,
            one == 0x1_0000_0000,
    {
        assert((one * (2 * v)) / one == 2 * v);
    }
    assert(trunc_div(0int * r, one) == 0);
    assert(trunc_div(one * r, one) == r) by (nonlinear_arith)
        requires
            r >= 0,
            one == 0x1_0000_0000,
    {
        assert((one * r) / one == r);
    }
    assert(0int * 0int + r * r == r * r);
    assert(is_floor_sqrt(r * r, r)) by (nonlinear_arith)
        requires
            r >= 0;
    lemma_floor_sqrt_unique(r * r, r);
}

} // verus!

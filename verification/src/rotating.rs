//! The rotating body, and the contacts that turn with it.

use vstd::prelude::*;
use crate::collision;
use crate::control::{InputSet, InputSetWork};
use crate::fixed::{saturate, Fixed};
use crate::shape::{rotate_lines, polygon_corner, Shape};
use crate::trig::Rotation;
use crate::vector::Point;

verus! {

/// The raw value of the spin below which an active brake stops the body: a thousandth.
pub const SNAP_THRESHOLD: i64 = 4_294_967;

/// The raw value of the friction coefficient of the default body: seven tenths.
pub const DEFAULT_FRICTION: i64 = 3_006_477_107;

/// A contact kept after the tick it was found in. Its angle is how far the
/// body has turned since, so that the contact can be shown where the body has
/// carried it.
#[derive(Clone, Copy, Debug, PartialEq, Eq, Structural)]
pub struct Collision {
    pub collision: collision::Collision,
    pub center_of_rotation: Point,
    pub angle: Fixed,
    /// The tick in which the contact was found.
    pub time: u64,
}

/// What one step of the body yields: the work done by each torque, and how
/// far the body turned.
#[derive(Clone, Copy, Debug, PartialEq, Eq, Structural)]
pub struct BodyUpdateResult {
    pub work: InputSetWork,
    pub delta_angle: Fixed,
}

/// The cage: a shape that turns about a center.
#[derive(Clone, Debug)]
pub struct Body {
    pub shape: Shape,
    pub center_of_rotation: Point,
    pub angle: Fixed,
    pub angular_velocity: Fixed,
    pub moment_of_inertia: Fixed,
    pub friction_coefficient: Fixed,
}

impl Collision {
    /// The record with its angle advanced by `delta_angle`.
    pub open spec fn spec_updated(self, delta_angle: Fixed) -> Collision {
        Collision { angle: self.angle.spec_add(delta_angle), ..self }
    }

    /// Where the contact is now: turned by the angle of the record about its center.
    pub open spec fn spec_current(self) -> collision::Collision {
        self.collision.spec_rotated(
            Rotation::spec_from_angle(self.angle),
            self.center_of_rotation,
        )
    }

    /// The record of a contact found in tick `time`, at angle zero.
    pub open spec fn spec_new(
        collision: collision::Collision,
        center_of_rotation: Point,
        time: u64,
    ) -> Collision {
        Collision { collision, center_of_rotation, angle: Fixed::spec_zero(), time }
    }

    /// A record of `collision`, found in tick `time`, at angle zero.
    pub fn new(collision: collision::Collision, center_of_rotation: Point, time: u64) -> (r:
        Collision)
        ensures
            r == Collision::spec_new(collision, center_of_rotation, time),
    {
        Collision { collision, center_of_rotation, angle: Fixed::zero(), time }
    }

    /// Advances the angle by `delta_angle`.
    pub fn update(&mut self, delta_angle: Fixed)
        ensures
            *final(self) == old(self).spec_updated(delta_angle),
    {
        self.angle = self.angle.add(delta_angle);
    }

    /// How long ago the contact was found, in seconds, in tick `now` of a
    /// game whose ticks are `tick_dt` apart; zero where `now` is not after it.
    pub open spec fn spec_age(self, now: u64, tick_dt: Fixed) -> Fixed {
        if now > self.time {
            Fixed { raw: saturate((now - self.time) * tick_dt.raw) as i64 }
        } else {
            Fixed::spec_zero()
        }
    }

    /// How long ago the contact was found, in seconds.
    pub fn age(&self, now: u64, tick_dt: Fixed) -> (r: Fixed)
        ensures
            r == self.spec_age(now, tick_dt),
    {
        if now > self.time {
            let ticks: i128 = (now - self.time) as i128;
            let step: i128 = tick_dt.raw as i128;
            assert(-0x8000_0000_0000_0000_0000_0000_0000_0000 <= ticks * step
                <= 0x7fff_ffff_ffff_ffff_ffff_ffff_ffff_ffff) by (nonlinear_arith)
                requires
                    0 <= ticks <= 0xffff_ffff_ffff_ffff,
                    -0x8000_0000_0000_0000 <= step <= 0x7fff_ffff_ffff_ffff;
            let wide: i128 = ticks * step;
            if wide > i64::MAX as i128 {
                Fixed { raw: i64::MAX }
            } else if wide < i64::MIN as i128 {
                Fixed { raw: i64::MIN }
            } else {
                Fixed { raw: wide as i64 }
            }
        } else {
            Fixed::zero()
        }
    }

    /// Where the contact is now.
    pub fn current(&self) -> (r: collision::Collision)
        ensures
            r == self.spec_current(),
    {
        self.collision.rotate(self.angle, self.center_of_rotation)
    }
}

impl Body {
    /// Whether the body can be stepped: its moment of inertia is above zero,
    /// its friction not below, and every line of its shape has two points.
    pub open spec fn wf(&self) -> bool {
        &&& self.shape.wf()
        &&& self.moment_of_inertia.raw > 0
        &&& self.friction_coefficient.raw >= 0
    }

    /// The torque of friction: against the spin, in proportion to it.
    pub open spec fn spec_friction_torque(&self) -> Fixed {
        self.friction_coefficient.spec_neg().spec_mul(self.angular_velocity)
    }

    /// The torque of the brake: against the direction of the spin.
    pub open spec fn spec_brake_torque(&self, input: InputSet) -> Fixed {
        if input.brake.active {
            input.brake.torque.spec_neg().spec_mul(self.angular_velocity.spec_signum())
        } else {
            Fixed::spec_zero()
        }
    }

    /// Whether the brake stops the body in this step: it is on and the spin
    /// is within the threshold of zero.
    pub open spec fn spec_snaps(&self, input: InputSet) -> bool {
        input.brake.active && self.angular_velocity.spec_abs().raw < SNAP_THRESHOLD
    }

    /// The spin after one step of `dt`: zero where the brake stops the body,
    /// else the spin advanced by the sum of the torques over the moment of
    /// inertia, times `dt`.
    pub open spec fn spec_next_velocity(&self, input: InputSet, dt: Fixed) -> Fixed {
        if self.spec_snaps(input) {
            Fixed::spec_zero()
        } else {
            let torque = self.spec_friction_torque().spec_add(
                self.spec_brake_torque(input),
            ).spec_add(input.motor.spec_applied()).spec_add(input.boost.spec_applied());
            self.angular_velocity.spec_add(torque.spec_div(self.moment_of_inertia).spec_mul(dt))
        }
    }

    /// How far the body turns in one step of `dt`: the new spin times `dt`.
    pub open spec fn spec_delta_angle(&self, input: InputSet, dt: Fixed) -> Fixed {
        self.spec_next_velocity(input, dt).spec_mul(dt)
    }

    /// The work each torque does in one step of `dt`: for the brake, its
    /// torque against the turn; for motor and boost, their torque along it.
    pub open spec fn spec_work(&self, input: InputSet, dt: Fixed) -> InputSetWork {
        let delta_angle = self.spec_delta_angle(input, dt);
        InputSetWork {
            brake: self.spec_brake_torque(input).spec_neg().spec_mul(delta_angle),
            motor: input.motor.spec_applied().spec_mul(delta_angle),
            boost: input.boost.spec_applied().spec_mul(delta_angle),
        }
    }

    /// The angle after one step of `dt`.
    pub open spec fn spec_next_angle(&self, input: InputSet, dt: Fixed) -> Fixed {
        self.angle.spec_add(self.spec_delta_angle(input, dt))
    }

    /// The outline of the body as it stands: its shape turned by its angle
    /// about its center.
    pub open spec fn spec_outline(&self) -> Seq<Seq<Point>> {
        rotate_lines(self.shape@, Rotation::spec_from_angle(self.angle), self.center_of_rotation)
    }

    /// The shape turned by the angle of the body about its center.
    pub fn shape_with_rotation_applied(&self) -> (r: Shape)
        ensures
            r@ == self.spec_outline(),
            self.shape.wf() ==> r.wf(),
    {
        self.shape.rotate(self.angle, self.center_of_rotation)
    }

    /// Advances the body by one step of `dt` under the torques of `input`:
    /// first the spin, then the angle by the new spin.
    pub fn update(&mut self, input: InputSet, dt: Fixed) -> (r: BodyUpdateResult)
        requires
            old(self).moment_of_inertia.raw > 0,
        ensures
            final(self).angular_velocity == old(self).spec_next_velocity(input, dt),
            final(self).angle == old(self).spec_next_angle(input, dt),
            final(self).shape == old(self).shape,
            final(self).center_of_rotation == old(self).center_of_rotation,
            final(self).moment_of_inertia == old(self).moment_of_inertia,
            final(self).friction_coefficient == old(self).friction_coefficient,
            r.work == old(self).spec_work(input, dt),
            r.delta_angle == old(self).spec_delta_angle(input, dt),
    {
        let friction_torque = self.friction_coefficient.neg().mul(self.angular_velocity);
        let brake_torque = if input.brake.active {
            input.brake.torque.neg().mul(self.angular_velocity.signum())
        } else {
            Fixed::zero()
        };
        let motor_torque = input.motor.applied();
        let boost_torque = input.boost.applied();

        if input.brake.active && self.angular_velocity.abs().raw < SNAP_THRESHOLD {
            self.angular_velocity = Fixed::zero();
        } else {
            let torque = friction_torque.add(brake_torque).add(motor_torque).add(boost_torque);
            let angular_acceleration = torque.div(self.moment_of_inertia);
            self.angular_velocity = self.angular_velocity.add(angular_acceleration.mul(dt));
        }

        let delta_angle = self.angular_velocity.mul(dt);
        self.angle = self.angle.add(delta_angle);

        BodyUpdateResult {
            work: InputSetWork {
                brake: brake_torque.neg().mul(delta_angle),
                motor: motor_torque.mul(delta_angle),
                boost: boost_torque.mul(delta_angle),
            },
            delta_angle,
        }
    }
}

impl Default for Body {
    /// A hexagon of radius one about the origin, turning at one radian a second.
    fn default() -> (r: Body)
        ensures
            r.shape@ == seq![
                Seq::new(
                    7,
                    |i: int| polygon_corner(i, 6, Fixed::spec_one(), Point::spec_origin()),
                ),
            ],
            r.center_of_rotation == Point::spec_origin(),
            r.angle == Fixed::spec_zero(),
            r.angular_velocity == Fixed::spec_one(),
            r.moment_of_inertia == Fixed::spec_one(),
            r.friction_coefficient == (Fixed { raw: DEFAULT_FRICTION }),
            r.wf(),
    {
        let shape = match Shape::regular_polygon(6, Fixed::one(), Point::origin()) {
            Ok(shape) => shape,
            Err(_) => Shape { lines: Vec::new() },
        };
        Body {
            shape,
            center_of_rotation: Point::origin(),
            angle: Fixed::zero(),
            angular_velocity: Fixed::one(),
            moment_of_inertia: Fixed::one(),
            friction_coefficient: Fixed { raw: DEFAULT_FRICTION },
        }
    }
}

} // verus!

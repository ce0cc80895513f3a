//! The ball: a point mass with a radius.

use vstd::prelude::*;
use crate::fixed::Fixed;
use crate::vector::{Point, Vector};

verus! {

/// The raw value of the radius of a ball at rest: a twentieth.
pub const REST_RADIUS: i64 = 214_748_364;

/// A point mass: where it is, how large, and how fast.
#[derive(Clone, Copy, Debug, PartialEq, Eq, Structural)]
pub struct Ball {
    pub center: Point,
    pub radius: Fixed,
    pub velocity: Vector,
}

impl Ball {
    /// The ball at rest at the origin.
    pub open spec fn spec_default() -> Ball {
        Ball {
            center: Point::spec_origin(),
            radius: Fixed { raw: REST_RADIUS },
            velocity: Vector::spec_zero(),
        }
    }

    /// The ball after one step of `dt` under `gravity`: the velocity gains
    /// `gravity * dt` along y, then the center moves by the new velocity
    /// times `dt`.
    pub open spec fn spec_update(self, dt: Fixed, gravity: Fixed) -> Ball {
        let velocity = Vector {
            x: self.velocity.x,
            y: self.velocity.y.spec_add(gravity.spec_mul(dt)),
        };
        Ball { center: self.center.spec_offset(velocity.spec_scale(dt)), velocity, ..self }
    }

    /// Advances the ball by one step of `dt` under `gravity`.
    pub fn update(&mut self, dt: Fixed, gravity: Fixed)
        ensures
            *final(self) == old(self).spec_update(dt, gravity),
    {
        self.velocity.y = self.velocity.y.add(gravity.mul(dt));
        self.center = self.center.offset(self.velocity.scale(dt));
    }
}

impl Default for Ball {
    /// The ball at rest at the origin, with a radius of a twentieth.
    fn default() -> (r: Ball)
        ensures
            r == Ball::spec_default(),
    {
        Ball {
            center: Point::origin(),
            radius: Fixed { raw: REST_RADIUS },
            velocity: Vector::zero(),
        }
    }
}

} // verus!

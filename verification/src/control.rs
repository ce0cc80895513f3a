//! The torques a player applies, and the work they have done.

use vstd::prelude::*;
use crate::fixed::Fixed;

verus! {

/// One torque channel: how strong it is, and whether it is on.
#[derive(Clone, Copy, Debug, PartialEq, Eq, Structural)]
pub struct Input {
    pub torque: Fixed,
    pub active: bool,
}

/// The three torque channels of a player.
#[derive(Clone, Copy, Debug, PartialEq, Eq, Structural)]
pub struct InputSet {
    pub brake: Input,
    pub motor: Input,
    pub boost: Input,
}

/// The work done by each channel.
#[derive(Clone, Copy, Debug, PartialEq, Eq, Structural)]
pub struct InputSetWork {
    pub brake: Fixed,
    pub motor: Fixed,
    pub boost: Fixed,
}

impl Input {
    /// The channel switched off, with no torque.
    pub open spec fn spec_off() -> Input {
        Input { torque: Fixed::spec_zero(), active: false }
    }

    /// The torque the channel applies: its strength where it is on, else zero.
    pub open spec fn spec_applied(self) -> Fixed {
        if self.active {
            self.torque
        } else {
            Fixed::spec_zero()
        }
    }

    /// The torque the channel applies: its strength where it is on, else zero.
    pub fn applied(self) -> (r: Fixed)
        ensures
            r == self.spec_applied(),
    {
        if self.active {
            self.torque
        } else {
            Fixed::zero()
        }
    }
}

impl InputSetWork {
    /// No work done on any channel.
    pub open spec fn spec_default() -> InputSetWork {
        InputSetWork {
            brake: Fixed::spec_zero(),
            motor: Fixed::spec_zero(),
            boost: Fixed::spec_zero(),
        }
    }

    /// The sums, channel by channel.
    pub open spec fn spec_plus(self, rhs: InputSetWork) -> InputSetWork {
        InputSetWork {
            brake: self.brake.spec_add(rhs.brake),
            motor: self.motor.spec_add(rhs.motor),
            boost: self.boost.spec_add(rhs.boost),
        }
    }

    /// Adds `rhs` channel by channel.
    pub fn add_assign(&mut self, rhs: InputSetWork)
        ensures
            *final(self) == old(self).spec_plus(rhs),
    {
        self.brake = self.brake.add(rhs.brake);
        self.motor = self.motor.add(rhs.motor);
        self.boost = self.boost.add(rhs.boost);
    }
}

impl Default for InputSetWork {
    /// No work done on any channel.
    fn default() -> (r: InputSetWork)
        ensures
            r == InputSetWork::spec_default(),
    {
        InputSetWork { brake: Fixed::zero(), motor: Fixed::zero(), boost: Fixed::zero() }
    }
}

} // verus!

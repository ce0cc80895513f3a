//! A ball bouncing inside a rotating cage, simulated in fixed-point arithmetic.
//!
//! Every quantity of the simulation is a [`fixed::Fixed`]: a signed number with
//! 32 fractional bits whose operations saturate at the ends of the range and
//! round toward zero. All contracts are stated over these exact integer
//! operations, so a run of the simulation is the same on every machine.

pub mod ball;
pub mod clock;
pub mod collision;
pub mod control;
pub mod dynamics;
pub mod error;
pub mod escape;
pub mod fixed;
pub mod game;
pub mod history;
pub mod level;
pub mod pacing;
pub mod rotating;
pub mod shape;
pub mod trig;
pub mod turning;
pub mod vector;

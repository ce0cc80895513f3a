//! Why a configuration is refused.

use vstd::prelude::*;

verus! {

/// A fault in the values a simulation is set up with.
#[derive(Clone, Copy, Debug, PartialEq, Eq, Structural)]
pub enum ConfigError {
    /// A line of the shape has fewer than two points.
    DegenerateLine,
    /// The moment of inertia is zero or negative.
    NonPositiveInertia,
    /// The friction coefficient is negative.
    NegativeFriction,
    /// The radius of the ball is zero or negative.
    NonPositiveRadius,
    /// The tick rate is zero or negative.
    NonPositiveTickRate,
}

} // verus!

//! Levels: a body, a ball, and the terms of play.

use vstd::prelude::*;
use uuid::Uuid;
use crate::ball::Ball;
use crate::control::{Input, InputSet};
use crate::error::ConfigError;
use crate::fixed::Fixed;
use crate::rotating::{Body, DEFAULT_FRICTION};
use crate::shape::{polygon_corner, Shape};
use crate::vector::Point;

verus! {

/// The raw value of the gravity of the built-in levels: 9.81.
pub const STANDARD_GRAVITY: i64 = 42_133_629_173;

/// The time limit of the built-in levels, in nanoseconds: 45 seconds.
pub const STANDARD_TIME: u128 = 45_000_000_000;

/// An identifier of the `uuid` crate; nothing of it is visible to proofs.
#[verifier::external_type_specification]
#[verifier::external_body]
pub struct ExUuid(Uuid);

/// `Uuid::clone`: an identifier is plain data, and its copy is equal to it.
pub assume_specification[ <Uuid as Clone>::clone ](id: &Uuid) -> (copy: Uuid)
    ensures
        copy == *id,
;

/// `Uuid::new_v4`: a random identifier. Nothing is claimed of it.
#[verifier::external_body]
fn fresh_id() -> (id: Uuid) {
    Uuid::new_v4()
}

/// `String::push`: appends one character.
#[verifier::external_body]
fn push_char(text: &mut String, c: char)
    ensures
        final(text)@ == old(text)@.push(c),
{
    text.push(c);
}

/// What a game is played on, and on what terms.
#[derive(Clone, Debug)]
pub struct Level {
    pub id: Uuid,
    pub name: String,
    pub body: Body,
    pub ball: Ball,
    pub input: InputSet,
    pub gravity: Fixed,
    /// The time after which the level is lost, in nanoseconds.
    pub max_time: u128,
    /// The work that brake and boost may do together.
    pub max_work: Fixed,
}

/// The character of one decimal digit.
pub open spec fn digit_char(d: nat) -> char {
    if d == 0 {
        '0'
    } else if d == 1 {
        '1'
    } else if d == 2 {
        '2'
    } else if d == 3 {
        '3'
    } else if d == 4 {
        '4'
    } else if d == 5 {
        '5'
    } else if d == 6 {
        '6'
    } else if d == 7 {
        '7'
    } else if d == 8 {
        '8'
    } else {
        '9'
    }
}

/// The decimal numeral of `n`.
pub open spec fn decimal(n: nat) -> Seq<char>
    decreases n,
{
    if n < 10 {
        seq![digit_char(n)]
    } else {
        decimal(n / 10).push(digit_char(n % 10))
    }
}

/// The inputs of the built-in levels: a brake of 3 and a boost of 2, both
/// off, and a motor of 1 that is on.
pub open spec fn spec_standard_input() -> InputSet {
    InputSet {
        brake: Input { torque: Fixed::spec_from_int(3), active: false },
        motor: Input { torque: Fixed::spec_from_int(1), active: true },
        boost: Input { torque: Fixed::spec_from_int(2), active: false },
    }
}

/// The character of one decimal digit.
fn digit(d: usize) -> (c: char)
    requires
        d < 10,
    ensures
        c == digit_char(d as nat),
{
    if d == 0 {
        '0'
    } else if d == 1 {
        '1'
    } else if d == 2 {
        '2'
    } else if d == 3 {
        '3'
    } else if d == 4 {
        '4'
    } else if d == 5 {
        '5'
    } else if d == 6 {
        '6'
    } else if d == 7 {
        '7'
    } else if d == 8 {
        '8'
    } else {
        '9'
    }
}

/// Appends the decimal numeral of `n`.
fn push_decimal(text: &mut String, n: usize)
    ensures
        final(text)@ == old(text)@ + decimal(n as nat),
    decreases n,
{
    if n >= 10 {
        push_decimal(text, n / 10);
    }
    push_char(text, digit(n % 10));
    assert(text@ =~= old(text)@ + decimal(n as nat));
}

impl Level {
    /// The first fault of the level, if it has one: a line of fewer than two
    /// points, a moment of inertia not above zero, a friction below zero, or
    /// a ball without a radius.
    pub open spec fn spec_fault(&self) -> Option<ConfigError> {
        if !self.body.shape.wf() {
            Some(ConfigError::DegenerateLine)
        } else if self.body.moment_of_inertia.raw <= 0 {
            Some(ConfigError::NonPositiveInertia)
        } else if self.body.friction_coefficient.raw < 0 {
            Some(ConfigError::NegativeFriction)
        } else if self.ball.radius.raw <= 0 {
            Some(ConfigError::NonPositiveRadius)
        } else {
            None
        }
    }

    /// Whether the level can be played.
    pub open spec fn wf(&self) -> bool {
        self.body.wf() && self.ball.radius.raw > 0
    }

    /// The first fault of the level, if it has one.
    pub fn fault(&self) -> (r: Option<ConfigError>)
        ensures
            r == self.spec_fault(),
            r.is_none() <==> self.wf(),
    {
        if !self.body.shape.is_valid() {
            Some(ConfigError::DegenerateLine)
        } else if self.body.moment_of_inertia.raw <= 0 {
            Some(ConfigError::NonPositiveInertia)
        } else if self.body.friction_coefficient.raw < 0 {
            Some(ConfigError::NegativeFriction)
        } else if self.ball.radius.raw <= 0 {
            Some(ConfigError::NonPositiveRadius)
        } else {
            None
        }
    }

    /// Whether the level has the terms of the built-in levels: a body about
    /// the origin that turns at one radian a second, with a moment of inertia
    /// of one and a friction of seven tenths; the ball at rest; the standard
    /// inputs and gravity; 45 seconds of time and a budget of 50.
    pub open spec fn spec_standard_terms(&self) -> bool {
        &&& self.body.center_of_rotation == Point::spec_origin()
        &&& self.body.angle == Fixed::spec_zero()
        &&& self.body.angular_velocity == Fixed::spec_one()
        &&& self.body.moment_of_inertia == Fixed::spec_one()
        &&& self.body.friction_coefficient == (Fixed { raw: DEFAULT_FRICTION })
        &&& self.ball == Ball::spec_default()
        &&& self.input == spec_standard_input()
        &&& self.gravity == (Fixed { raw: STANDARD_GRAVITY })
        &&& self.max_time == STANDARD_TIME
        &&& self.max_work == Fixed::spec_from_int(50)
    }

    /// The level of the given name and shape on the terms of the built-in
    /// levels, under a fresh identifier.
    fn standard(name: String, shape: Shape) -> (level: Level)
        requires
            shape.wf(),
        ensures
            level.name == name,
            level.body.shape == shape,
            level.spec_standard_terms(),
            level.wf(),
    {
        let body = Body {
            shape,
            center_of_rotation: Point::origin(),
            angle: Fixed::zero(),
            angular_velocity: Fixed::one(),
            moment_of_inertia: Fixed::one(),
            friction_coefficient: Fixed { raw: DEFAULT_FRICTION },
        };
        let input = InputSet {
            brake: Input { torque: Fixed::from_int(3), active: false },
            motor: Input { torque: Fixed::from_int(1), active: true },
            boost: Input { torque: Fixed::from_int(2), active: false },
        };
        Level {
            id: fresh_id(),
            name,
            body,
            ball: Ball::default(),
            input,
            gravity: Fixed { raw: STANDARD_GRAVITY },
            max_time: STANDARD_TIME,
            max_work: Fixed::from_int(50),
        }
    }

    /// The level of a regular polygon of `num_sides` sides and radius one
    /// about the origin, named by its number of sides. Refused where there
    /// is no side.
    pub fn simple_polygon(num_sides: usize) -> (r: Result<Level, ConfigError>)
        requires
            num_sides < usize::MAX,
        ensures
            match r {
                Ok(level) => {
                    &&& num_sides >= 1
                    &&& level.name@ == "Simple Polygon "@ + decimal(num_sides as nat)
                    &&& level.body.shape@ == seq![
                        Seq::new(
                            (num_sides + 1) as nat,
                            |i: int|
                                polygon_corner(
                                    i,
                                    num_sides as int,
                                    Fixed::spec_one(),
                                    Point::spec_origin(),
                                ),
                        ),
                    ]
                    &&& level.spec_standard_terms()
                    &&& level.wf()
                },
                Err(e) => e == ConfigError::DegenerateLine && num_sides == 0,
            },
    {
        let shape = match Shape::regular_polygon(num_sides, Fixed::one(), Point::origin()) {
            Ok(shape) => shape,
            Err(e) => {
                return Err(e);
            },
        };
        let mut name = "Simple Polygon ".to_owned();
        push_decimal(&mut name, num_sides);
        Ok(Level::standard(name, shape))
    }

    /// The level named "Funky Polygon" around the given shape. Refused
    /// where a line of the shape has fewer than two points.
    pub fn funky_polygon(shape: Shape) -> (r: Result<Level, ConfigError>)
        ensures
            match r {
                Ok(level) => {
                    &&& shape.wf()
                    &&& level.name@ == "Funky Polygon"@
                    &&& level.body.shape == shape
                    &&& level.spec_standard_terms()
                    &&& level.wf()
                },
                Err(e) => e == ConfigError::DegenerateLine && !shape.wf(),
            },
    {
        if !shape.is_valid() {
            return Err(ConfigError::DegenerateLine);
        }
        Ok(Level::standard("Funky Polygon".to_owned(), shape))
    }
}

} // verus!

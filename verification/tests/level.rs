use bouncy::ball::Ball;
use bouncy::control::{Input, InputSet};
use bouncy::error::ConfigError;
use bouncy::fixed::Fixed;
use bouncy::level::Level;
use bouncy::shape::Shape;
use bouncy::vector::Point;

#[test]
fn the_level_of_a_hexagon() {
    let level = Level::simple_polygon(6).unwrap();
    assert_eq!(level.name, "Simple Polygon 6");
    assert_eq!(
        level.body.shape.lines,
        Shape::regular_polygon(6, Fixed::one(), Point::origin()).unwrap().lines
    );
    assert_eq!(level.body.center_of_rotation, Point::origin());
    assert_eq!(level.body.angle, Fixed::zero());
    assert_eq!(level.body.angular_velocity, Fixed::one());
    assert_eq!(level.body.moment_of_inertia, Fixed::one());
    assert_eq!(level.body.friction_coefficient, Fixed::from_ratio(7, 10));
    assert_eq!(level.ball, Ball::default());
    assert_eq!(
        level.input,
        InputSet {
            brake: Input { torque: Fixed::from_int(3), active: false },
            motor: Input { torque: Fixed::from_int(1), active: true },
            boost: Input { torque: Fixed::from_int(2), active: false },
        }
    );
    assert_eq!(level.gravity, Fixed::from_ratio(981, 100));
    assert_eq!(level.max_time, 45_000_000_000);
    assert_eq!(level.max_work, Fixed::from_int(50));
    assert_eq!(level.fault(), None);
}

#[test]
fn levels_are_named_by_their_number_of_sides() {
    assert_eq!(Level::simple_polygon(1).unwrap().name, "Simple Polygon 1");
    assert_eq!(Level::simple_polygon(3).unwrap().name, "Simple Polygon 3");
    assert_eq!(Level::simple_polygon(9).unwrap().name, "Simple Polygon 9");
    assert_eq!(Level::simple_polygon(10).unwrap().name, "Simple Polygon 10");
    assert_eq!(Level::simple_polygon(12).unwrap().name, "Simple Polygon 12");
    assert_eq!(Level::simple_polygon(100).unwrap().name, "Simple Polygon 100");
    assert_eq!(Level::simple_polygon(2047).unwrap().name, "Simple Polygon 2047");
}

#[test]
fn a_level_without_sides_is_refused() {
    assert_eq!(Level::simple_polygon(0).err(), Some(ConfigError::DegenerateLine));
}

#[test]
fn levels_get_identifiers_of_their_own() {
    let first = Level::simple_polygon(3).unwrap();
    let second = Level::simple_polygon(3).unwrap();
    assert_ne!(first.id, second.id);
    assert_eq!(first.id.get_version_num(), 4);
}

#[test]
fn a_copy_of_a_level_keeps_its_identifier() {
    let level = Level::simple_polygon(5).unwrap();
    let copy = level.clone();
    assert_eq!(copy.id, level.id);
    assert_eq!(copy.name, level.name);
    assert_eq!(copy.body.shape.lines, level.body.shape.lines);
    assert_eq!(copy.ball, level.ball);
}

#[test]
fn the_faults_of_a_level_in_their_order() {
    let sound = Level::simple_polygon(4).unwrap();

    let mut level = sound.clone();
    level.ball.radius = Fixed::zero();
    assert_eq!(level.fault(), Some(ConfigError::NonPositiveRadius));
    level.ball.radius = Fixed { raw: -1 };
    assert_eq!(level.fault(), Some(ConfigError::NonPositiveRadius));

    level.body.friction_coefficient = Fixed { raw: -1 };
    assert_eq!(level.fault(), Some(ConfigError::NegativeFriction));

    level.body.moment_of_inertia = Fixed::zero();
    assert_eq!(level.fault(), Some(ConfigError::NonPositiveInertia));
    level.body.moment_of_inertia = Fixed::from_int(-2);
    assert_eq!(level.fault(), Some(ConfigError::NonPositiveInertia));

    level.body.shape.lines.push(vec![Point::origin()]);
    assert_eq!(level.fault(), Some(ConfigError::DegenerateLine));

    let mut frictionless = sound.clone();
    frictionless.body.friction_coefficient = Fixed::zero();
    assert_eq!(frictionless.fault(), None);
}

#[test]
fn a_level_around_a_shape_of_ones_own() {
    let shape = Shape {
        lines: vec![
            vec![
                Point::new(Fixed::from_int(1), Fixed::from_int(1)),
                Point::new(Fixed::from_int(-1), Fixed::from_int(1)),
                Point::new(Fixed::from_int(0), Fixed::from_int(-2)),
            ],
        ],
    };
    let level = Level::funky_polygon(shape.clone()).unwrap();
    assert_eq!(level.name, "Funky Polygon");
    assert_eq!(level.body.shape.lines, shape.lines);
    let standard = Level::simple_polygon(3).unwrap();
    assert_eq!(level.body.center_of_rotation, standard.body.center_of_rotation);
    assert_eq!(level.body.angle, standard.body.angle);
    assert_eq!(level.body.angular_velocity, standard.body.angular_velocity);
    assert_eq!(level.body.moment_of_inertia, standard.body.moment_of_inertia);
    assert_eq!(level.body.friction_coefficient, standard.body.friction_coefficient);
    assert_eq!(level.ball, standard.ball);
    assert_eq!(level.input, standard.input);
    assert_eq!(level.gravity, standard.gravity);
    assert_eq!(level.max_time, standard.max_time);
    assert_eq!(level.max_work, standard.max_work);
    assert_eq!(level.fault(), None);

    let broken = Shape { lines: vec![vec![Point::origin()]] };
    assert_eq!(Level::funky_polygon(broken).err(), Some(ConfigError::DegenerateLine));
    assert!(Level::funky_polygon(Shape { lines: vec![] }).is_ok());
}

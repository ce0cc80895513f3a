use bouncy::ball::Ball;
use bouncy::control::{Input, InputSet, InputSetWork};
use bouncy::fixed::{Fixed, SCALE};
use bouncy::rotating::{Body, BodyUpdateResult};
use bouncy::shape::Shape;
use bouncy::vector::{Point, Vector};

fn num(v: i64) -> Fixed {
    Fixed { raw: v }
}

fn tick() -> Fixed {
    Fixed::one().div(Fixed::from_int(1024))
}

fn inputs(brake: bool, motor: bool, boost: bool) -> InputSet {
    InputSet {
        brake: Input { torque: Fixed::from_int(3), active: brake },
        motor: Input { torque: Fixed::from_int(1), active: motor },
        boost: Input { torque: Fixed::from_int(2), active: boost },
    }
}

fn work(brake: i64, motor: i64, boost: i64) -> InputSetWork {
    InputSetWork { brake: num(brake), motor: num(motor), boost: num(boost) }
}

#[test]
fn the_ball_at_rest() {
    let ball = Ball::default();
    assert_eq!(ball.center, Point::origin());
    assert_eq!(ball.radius, Fixed::from_ratio(1, 20));
    assert_eq!(ball.velocity, Vector::zero());
}

#[test]
fn the_ball_gains_speed_before_it_moves() {
    let mut ball = Ball {
        center: Point::new(Fixed::from_int(1), Fixed::from_int(2)),
        radius: Fixed::from_ratio(1, 20),
        velocity: Vector::new(Fixed::from_ratio(1, 2), Fixed::from_ratio(-1, 4)),
    };
    ball.update(tick(), Fixed::from_ratio(981, 100));
    assert_eq!(ball.velocity, Vector::new(num(2_147_483_648), num(-1_032_595_702)));
    assert_eq!(ball.center, Point::new(num(4_297_064_448), num(8_588_926_198)));
    assert_eq!(ball.radius, Fixed::from_ratio(1, 20));
}

#[test]
fn the_ball_under_no_or_inverted_gravity() {
    let mut ball = Ball::default();
    ball.update(tick(), Fixed::zero());
    assert_eq!(ball, Ball::default());
    ball.update(tick(), Fixed::from_int(-1024));
    assert_eq!(ball.velocity, Vector::new(num(0), num(-SCALE)));
    assert_eq!(ball.center, Point::new(num(0), num(-4_194_304)));
}

#[test]
fn the_default_body() {
    let body = Body::default();
    assert_eq!(
        body.shape.lines,
        Shape::regular_polygon(6, Fixed::one(), Point::origin()).unwrap().lines
    );
    assert_eq!(body.center_of_rotation, Point::origin());
    assert_eq!(body.angle, Fixed::zero());
    assert_eq!(body.angular_velocity, Fixed::one());
    assert_eq!(body.moment_of_inertia, Fixed::one());
    assert_eq!(body.friction_coefficient, Fixed::from_ratio(7, 10));
}

#[test]
fn friction_alone_slows_the_body() {
    let mut body = Body::default();
    let result = body.update(inputs(false, false, false), tick());
    assert_eq!(body.angular_velocity, num(4_292_031_284));
    assert_eq!(body.angle, num(4_191_436));
    assert_eq!(result, BodyUpdateResult { work: work(0, 0, 0), delta_angle: num(4_191_436) });
}

#[test]
fn the_motor_drives_forward() {
    let mut body = Body::default();
    let result = body.update(inputs(false, true, false), tick());
    assert_eq!(body.angular_velocity, num(4_296_225_587));
    assert_eq!(body.angle, num(4_195_532));
    assert_eq!(
        result,
        BodyUpdateResult { work: work(0, 4_195_532, 0), delta_angle: num(4_195_532) }
    );
}

#[test]
fn all_torques_together() {
    let mut body = Body::default();
    let result = body.update(inputs(true, true, true), tick());
    assert_eq!(body.angular_velocity, num(4_292_031_284));
    assert_eq!(body.angle, num(4_191_436));
    assert_eq!(
        result,
        BodyUpdateResult {
            work: work(12_574_308, 4_191_436, 8_382_872),
            delta_angle: num(4_191_436),
        }
    );
}

#[test]
fn the_brake_works_against_a_backward_spin_too() {
    let mut body = Body::default();
    body.angular_velocity = Fixed::from_int(-1);
    let result = body.update(inputs(true, false, false), tick());
    assert_eq!(body.angular_velocity, num(-4_279_448_372));
    assert_eq!(body.angle, num(-4_179_148));
    assert_eq!(
        result,
        BodyUpdateResult { work: work(12_537_444, 0, 0), delta_angle: num(-4_179_148) }
    );
}

#[test]
fn the_brake_stops_a_slow_body_dead() {
    for spin in [2_147_484, -2_147_484, 4_294_966, -4_294_966, 1, 0] {
        let mut body = Body::default();
        body.angular_velocity = num(spin);
        body.angle = Fixed::from_int(5);
        let result = body.update(inputs(true, true, true), tick());
        assert_eq!(body.angular_velocity, Fixed::zero());
        assert_eq!(body.angle, Fixed::from_int(5));
        assert_eq!(result, BodyUpdateResult { work: work(0, 0, 0), delta_angle: Fixed::zero() });
    }
}

#[test]
fn at_the_threshold_the_brake_does_not_stop_the_body() {
    let mut body = Body::default();
    body.angular_velocity = num(4_294_967);
    body.update(inputs(true, false, false), tick());
    assert!(body.angular_velocity.raw != 0);
}

#[test]
fn a_slow_body_without_brake_keeps_turning() {
    let mut body = Body::default();
    body.angular_velocity = num(2_147_484);
    body.update(inputs(false, false, false), tick());
    assert!(body.angular_velocity.raw > 0);
}

#[test]
fn a_strong_brake_on_a_slow_body_reverses_it_and_does_negative_work() {
    let mut body = Body::default();
    body.friction_coefficient = Fixed::zero();
    body.angular_velocity = num(8_589_935);
    let result = body.update(inputs(true, false, false), tick());
    assert_eq!(body.angular_velocity, num(-3_992_977));
    assert_eq!(result.delta_angle, num(-3_899));
    assert_eq!(result.work, work(-11_697, 0, 0));
}

#[test]
fn the_boost_on_a_body_that_turns_backward_does_negative_work() {
    let mut body = Body::default();
    body.angular_velocity = Fixed::from_int(-1);
    let result = body.update(inputs(false, false, true), tick());
    assert!(result.delta_angle.raw < 0);
    assert!(result.work.boost.raw < 0);
}

#[test]
fn work_of_brake_and_boost_only_grows_while_the_body_turns_forward() {
    let mut body = Body::default();
    body.angular_velocity = Fixed::from_int(4);
    let mut total = InputSetWork::default();
    let mut n = 0;
    while n < 1000 {
        let before_spin = body.angular_velocity;
        let before = total;
        let result = body.update(inputs(true, false, true), tick());
        assert!(before_spin.raw > 0 && result.delta_angle.raw >= 0);
        total.add_assign(result.work);
        assert!(result.work.brake.raw >= 0);
        assert!(result.work.boost.raw >= 0);
        assert!(total.brake.raw >= before.brake.raw);
        assert!(total.boost.raw >= before.boost.raw);
        n += 1;
    }
    assert!(total.brake.raw > 0 && total.boost.raw > 0);
}

#[test]
fn work_adds_up_by_channel() {
    let mut total = InputSetWork::default();
    assert_eq!(total, work(0, 0, 0));
    total.add_assign(work(1, 2, 3));
    total.add_assign(work(10, -20, 30));
    assert_eq!(total, work(11, -18, 33));
    total.add_assign(work(i64::MAX, i64::MIN, 0));
    assert_eq!(total, work(i64::MAX, i64::MIN, 33));
}

#[test]
fn a_channel_applies_its_torque_only_when_on() {
    assert_eq!(Input { torque: num(7), active: true }.applied(), num(7));
    assert_eq!(Input { torque: num(7), active: false }.applied(), num(0));
}

#[test]
fn a_gentle_brake_brings_the_body_to_rest_and_keeps_it_there() {
    for start in [SCALE, -SCALE, 5 * SCALE, 4_294_967, -4_294_967, 4_294_968, 123] {
        let mut body = Body::default();
        body.angular_velocity = num(start);
        let brake = InputSet {
            brake: Input { torque: Fixed::from_ratio(1, 2), active: true },
            motor: Input { torque: Fixed::from_int(1), active: false },
            boost: Input { torque: Fixed::from_int(2), active: false },
        };
        let mut steps = 0;
        while body.angular_velocity.raw != 0 {
            let before = body.angular_velocity.raw;
            body.update(brake, tick());
            let after = body.angular_velocity.raw;
            assert!(after.abs() < before.abs(), "the spin grew from {} to {}", before, after);
            assert!(after == 0 || (after > 0) == (before > 0), "the spin swung over");
            steps += 1;
            assert!(steps <= start.abs(), "no rest after {} steps", steps);
        }
        let rested_at = body.angle;
        let mut more = 0;
        while more < 100 {
            body.update(brake, tick());
            assert_eq!(body.angular_velocity, Fixed::zero());
            assert_eq!(body.angle, rested_at);
            more += 1;
        }
    }
}

#[test]
fn the_outline_is_the_shape_turned_by_the_angle() {
    let mut body = Body::default();
    body.angle = Fixed::from_ratio(1, 2);
    body.center_of_rotation = Point::new(Fixed::from_int(1), Fixed::from_int(1));
    assert_eq!(
        body.shape_with_rotation_applied().lines,
        body.shape.rotate(body.angle, body.center_of_rotation).lines
    );
    body.angle = Fixed::zero();
    assert_eq!(body.shape_with_rotation_applied().lines, body.shape.lines);
}

#[test]
fn a_strong_brake_makes_a_slow_body_swing_about_rest() {
    let mut body = Body::default();
    body.friction_coefficient = Fixed::zero();
    body.angular_velocity = num(6_442_451);
    let mut n = 0;
    while n < 1000 {
        body.update(inputs(true, false, false), tick());
        assert_eq!(body.angular_velocity, num(-6_140_461));
        body.update(inputs(true, false, false), tick());
        assert_eq!(body.angular_velocity, num(6_442_451));
        n += 1;
    }
}

use bouncy::fixed::Fixed;
use bouncy::shape::{compute_winding_number, Shape};
use bouncy::vector::Point;

fn point(x_halves: i64, y_halves: i64) -> Point {
    Point::new(Fixed::from_ratio(x_halves, 2), Fixed::from_ratio(y_halves, 2))
}

#[test]
fn test_compute_winding_number() {
    let shape = Shape::regular_polygon(4, Fixed::one(), Point::origin()).unwrap();

    assert_eq!(compute_winding_number(Point::origin(), &shape), 1);
    assert_eq!(compute_winding_number(point(2, 2), &shape), 0);
    assert_eq!(compute_winding_number(point(0, 1), &shape), 1);
    assert_eq!(compute_winding_number(point(-2, 1), &shape), 0);
    assert_eq!(compute_winding_number(point(-8, 0), &shape), 0);
    assert_eq!(compute_winding_number(point(-2, 2), &shape), 0);
}

fn corner(x: i32, y: i32) -> Point {
    Point::new(Fixed::from_int(x), Fixed::from_int(y))
}

#[test]
fn winding_number_on_a_unit_square() {
    let square = Shape {
        lines: vec![vec![corner(1, 1), corner(-1, 1), corner(-1, -1), corner(1, -1), corner(1, 1)]],
    };
    assert_eq!(compute_winding_number(corner(0, 0), &square), 1);
    assert_eq!(compute_winding_number(corner(2, 2), &square), 0);
}

#[test]
fn points_on_an_edge_of_the_square() {
    let square = Shape {
        lines: vec![vec![corner(1, 1), corner(-1, 1), corner(-1, -1), corner(1, -1), corner(1, 1)]],
    };
    // The ray runs toward growing x and a segment owns its lower end only:
    // the left and the bottom edge count as inside, the right and the top as outside.
    assert_eq!(compute_winding_number(corner(1, 0), &square), 0);
    assert_eq!(compute_winding_number(corner(-1, 0), &square), 1);
    assert_eq!(compute_winding_number(corner(0, 1), &square), 0);
    assert_eq!(compute_winding_number(corner(0, -1), &square), 1);
}

#[test]
fn the_other_way_round_winds_negatively() {
    let square = Shape {
        lines: vec![vec![corner(1, 1), corner(1, -1), corner(-1, -1), corner(-1, 1), corner(1, 1)]],
    };
    assert_eq!(compute_winding_number(corner(0, 0), &square), -1);
    assert_eq!(compute_winding_number(corner(2, 2), &square), 0);
}

#[test]
fn an_opening_does_not_let_the_winding_out() {
    let open = Shape {
        lines: vec![vec![corner(1, 1), corner(-1, 1), corner(-1, -1), corner(1, -1)]],
    };
    assert_eq!(compute_winding_number(corner(0, 0), &open), 1);
    let two_lines = Shape {
        lines: vec![vec![corner(1, 1), corner(-1, 1)], vec![corner(-1, -1), corner(1, -1)]],
    };
    assert_eq!(compute_winding_number(corner(0, 0), &two_lines), 1);
    assert_eq!(compute_winding_number(corner(0, 3), &two_lines), 0);
}

#[test]
fn a_curve_that_crosses_itself_is_counted_without_fault() {
    let twice = Shape {
        lines: vec![vec![
            corner(1, 1),
            corner(-1, 1),
            corner(-1, -1),
            corner(1, -1),
            corner(1, 1),
            corner(-1, 1),
            corner(-1, -1),
            corner(1, -1),
            corner(1, 1),
        ]],
    };
    assert_eq!(compute_winding_number(corner(0, 0), &twice), 2);
    let bow = Shape {
        lines: vec![vec![corner(-2, -1), corner(2, 1), corner(2, -1), corner(-2, 1), corner(-2, -1)]],
    };
    assert_eq!(compute_winding_number(corner(1, 0), &bow), -1);
    assert_eq!(compute_winding_number(corner(-1, 0), &bow), 1);
    assert_eq!(compute_winding_number(corner(0, 5), &bow), 0);
}

#[test]
fn nothing_winds_around_a_point_of_an_empty_shape() {
    assert_eq!(compute_winding_number(corner(0, 0), &Shape { lines: vec![] }), 0);
}

#[test]
fn coordinates_at_the_ends_of_the_range_are_compared_exactly() {
    let far = Fixed { raw: i64::MAX };
    let near = Fixed { raw: i64::MIN };
    let huge = Shape {
        lines: vec![vec![
            Point::new(far, far),
            Point::new(near, far),
            Point::new(near, near),
            Point::new(far, near),
            Point::new(far, far),
        ]],
    };
    assert_eq!(compute_winding_number(corner(0, 0), &huge), 1);
    assert_eq!(compute_winding_number(Point::new(Fixed { raw: i64::MAX - 1 }, Fixed::zero()), &huge), 1);
    assert_eq!(compute_winding_number(Point::new(far, Fixed::zero()), &huge), 0);
}

#[test]
fn nothing_winds_around_a_point_beyond_the_shape() {
    let shapes = [
        Shape::regular_polygon(6, Fixed::one(), Point::origin()).unwrap(),
        Shape::regular_polygon(6, Fixed::one(), Point::origin())
            .unwrap()
            .rotate(Fixed::from_ratio(1, 3), Point::origin()),
        Shape { lines: vec![vec![corner(1, 1), corner(-1, 1)], vec![corner(-1, -1), corner(1, -1)]] },
        Shape {
            lines: vec![vec![corner(-1, -1), corner(1, 1), corner(1, -1), corner(-1, 1), corner(-1, -1)]],
        },
    ];
    for shape in &shapes {
        let mut k = -30;
        while k <= 30 {
            let along = Fixed::from_ratio(k, 10);
            let far = Fixed::from_int(1).add(Fixed { raw: 1 });
            for point in [
                Point::new(far, along),
                Point::new(far.neg(), along),
                Point::new(along, far),
                Point::new(along, far.neg()),
                Point::new(Fixed::one(), along),
                Point::new(along, Fixed::one()),
            ] {
                assert_eq!(compute_winding_number(point, shape), 0);
            }
            k += 1;
        }
    }
}

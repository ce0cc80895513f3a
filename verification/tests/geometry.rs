use bouncy::error::ConfigError;
use bouncy::fixed::{Fixed, SCALE};
use bouncy::shape::{Rect, Shape};
use bouncy::trig::Rotation;
use bouncy::vector::{Point, Vector};

fn fx(v: i64) -> Fixed {
    Fixed { raw: v }
}

fn whole(x: i32, y: i32) -> Point {
    Point::new(Fixed::from_int(x), Fixed::from_int(y))
}

fn arrow(x: i32, y: i32) -> Vector {
    Vector::new(Fixed::from_int(x), Fixed::from_int(y))
}

fn tolerance(offset: i64) -> i64 {
    6 + offset.abs() / 0x8000_0000
}

#[test]
fn vectors_add_scale_and_dot() {
    assert_eq!(arrow(1, 2).add(arrow(3, -5)), arrow(4, -3));
    assert_eq!(arrow(1, 2).sub(arrow(3, -5)), arrow(-2, 7));
    assert_eq!(arrow(1, -2).neg(), arrow(-1, 2));
    assert_eq!(arrow(1, -2).scale(Fixed::from_int(3)), arrow(3, -6));
    assert_eq!(arrow(1, 2).dot(arrow(3, -5)), Fixed::from_int(-7));
    assert_eq!(arrow(3, 4).perp(), arrow(-4, 3));
    assert_eq!(Vector::zero(), arrow(0, 0));
}

#[test]
fn lengths_round_down() {
    assert_eq!(arrow(3, 4).length(), Fixed::from_int(5));
    assert_eq!(arrow(-5, 12).length(), Fixed::from_int(13));
    assert_eq!(Vector::new(fx(1), fx(1)).length(), fx(1));
    assert_eq!(Vector::zero().length(), fx(0));
    assert_eq!(Vector::new(fx(i64::MIN), fx(i64::MIN)).length(), fx(i64::MAX));
}

#[test]
fn a_vector_without_length_has_no_direction() {
    assert_eq!(Vector::zero().normalized(), None);
    assert_eq!(arrow(0, -7).normalized(), Some(arrow(0, -1)));
    assert_eq!(
        arrow(3, 4).normalized(),
        Some(Vector::new(fx(2_576_980_377), fx(3_435_973_836)))
    );
    assert_eq!(
        arrow(1, 1).normalized(),
        Some(Vector::new(fx(3_037_000_500), fx(3_037_000_500)))
    );
}

#[test]
fn points_and_vectors() {
    assert_eq!(whole(1, 2).offset(arrow(3, 4)), whole(4, 6));
    assert_eq!(whole(1, 2).minus(whole(3, 5)), arrow(-2, -3));
    assert_eq!(Point::origin(), whole(0, 0));
}

#[test]
fn quarter_turns_are_exact() {
    let quarter = Rotation { sin: Fixed::one(), cos: Fixed::zero() };
    assert_eq!(arrow(1, 0).rotated(quarter), arrow(0, 1));
    assert_eq!(arrow(0, 1).rotated(quarter), arrow(-1, 0));
    assert_eq!(whole(3, 1).rotated_about(quarter, whole(1, 1)), whole(1, 3));
}

#[test]
fn reflection_mirrors_across_the_normal() {
    assert_eq!(arrow(0, -3).reflected(arrow(0, 1)), arrow(0, 3));
    assert_eq!(arrow(2, -3).reflected(arrow(0, 1)), arrow(2, 3));
    assert_eq!(arrow(2, -3).reflected(arrow(0, -1)), arrow(2, 3));
    assert_eq!(arrow(2, -3).reflected(arrow(1, 0)), arrow(-2, -3));
}

#[test]
fn a_line_needs_two_points() {
    assert_eq!(Shape::new(vec![vec![whole(0, 0)]]).err(), Some(ConfigError::DegenerateLine));
    assert_eq!(Shape::new(vec![vec![]]).err(), Some(ConfigError::DegenerateLine));
    assert_eq!(
        Shape::new(vec![vec![whole(0, 0), whole(1, 0)], vec![whole(2, 2)]]).err(),
        Some(ConfigError::DegenerateLine)
    );
    assert!(Shape::new(vec![vec![whole(0, 0), whole(1, 0)]]).is_ok());
    assert!(Shape::new(vec![]).is_ok());
    assert!(!Shape { lines: vec![vec![whole(0, 0)]] }.is_valid());
    assert!(Shape { lines: vec![vec![whole(0, 0), whole(0, 0)]] }.is_valid());
}

#[test]
fn a_polygon_needs_a_side() {
    assert_eq!(
        Shape::regular_polygon(0, Fixed::one(), Point::origin()).err(),
        Some(ConfigError::DegenerateLine)
    );
}

#[test]
fn a_square_has_its_corners_on_the_axes() {
    let shape = Shape::regular_polygon(4, Fixed::from_int(2), whole(10, -10)).unwrap();
    assert_eq!(
        shape.lines,
        vec![vec![whole(12, -10), whole(10, -8), whole(8, -10), whole(10, -12), whole(12, -10)]]
    );
}

#[test]
fn a_hexagon_closes_on_its_first_corner() {
    let shape = Shape::regular_polygon(6, Fixed::one(), Point::origin()).unwrap();
    let expected: Vec<(i64, i64)> = vec![
        (4_294_967_296, 0),
        (2_147_483_648, 3_719_550_786),
        (-2_147_483_647, 3_719_550_787),
        (-4_294_967_296, 0),
        (-2_147_483_648, -3_719_550_786),
        (2_147_483_647, -3_719_550_787),
        (4_294_967_296, 0),
    ];
    let found: Vec<(i64, i64)> = shape.lines[0].iter().map(|p| (p.x.raw, p.y.raw)).collect();
    assert_eq!(shape.lines.len(), 1);
    assert_eq!(found, expected);
}

#[test]
fn polygon_corners_lie_on_the_circle() {
    let shape = Shape::regular_polygon(7, Fixed::from_int(3), whole(1, 2)).unwrap();
    assert_eq!(shape.lines[0].len(), 8);
    for (i, p) in shape.lines[0].iter().enumerate() {
        let angle = i as f64 * std::f64::consts::TAU / 7.0;
        let x = 1.0 + 3.0 * angle.cos();
        let y = 2.0 + 3.0 * angle.sin();
        assert!((p.x.raw as f64 / SCALE as f64 - x).abs() < 1e-8);
        assert!((p.y.raw as f64 / SCALE as f64 - y).abs() < 1e-8);
    }
}

#[test]
fn segments_join_consecutive_points_of_each_line() {
    let shape = Shape {
        lines: vec![
            vec![whole(0, 0), whole(1, 0), whole(1, 1)],
            vec![whole(5, 5), whole(6, 5)],
            vec![whole(9, 9)],
            vec![],
        ],
    };
    assert_eq!(
        shape.all_segments(),
        vec![
            (whole(0, 0), whole(1, 0)),
            (whole(1, 0), whole(1, 1)),
            (whole(5, 5), whole(6, 5)),
        ]
    );
    assert_eq!(
        shape.all_points(),
        vec![whole(0, 0), whole(1, 0), whole(1, 1), whole(5, 5), whole(6, 5), whole(9, 9)]
    );
    assert_eq!(Shape { lines: vec![] }.all_segments(), vec![]);
    assert_eq!(Shape { lines: vec![] }.all_points(), vec![]);
}

#[test]
fn a_closed_line_has_its_closing_segment_only_as_data() {
    let open = Shape { lines: vec![vec![whole(0, 0), whole(1, 0), whole(1, 1)]] };
    assert_eq!(open.all_segments().len(), 2);
    let closed = Shape { lines: vec![vec![whole(0, 0), whole(1, 0), whole(1, 1), whole(0, 0)]] };
    assert_eq!(closed.all_segments().len(), 3);
    assert_eq!(closed.all_segments()[2], (whole(1, 1), whole(0, 0)));
}

#[test]
fn openings_are_bridged() {
    let open = Shape {
        lines: vec![vec![whole(0, 0), whole(1, 0)], vec![whole(1, 1), whole(0, 1)]],
    };
    assert_eq!(
        open.all_segments_including_openings(),
        vec![
            (whole(0, 0), whole(1, 0)),
            (whole(1, 0), whole(1, 1)),
            (whole(1, 1), whole(0, 1)),
            (whole(0, 1), whole(0, 0)),
        ]
    );
    let closed = Shape { lines: vec![vec![whole(0, 0), whole(1, 0), whole(1, 1), whole(0, 0)]] };
    assert_eq!(closed.all_segments_including_openings(), closed.all_segments());
    assert_eq!(Shape { lines: vec![] }.all_segments_including_openings(), vec![]);
    let single = Shape { lines: vec![vec![whole(2, 2)]] };
    assert_eq!(single.all_segments_including_openings(), vec![]);
}

#[test]
fn the_extent_reaches_the_farthest_point() {
    let shape = Shape { lines: vec![vec![whole(1, 1), whole(4, 5), whole(-2, 1)]] };
    assert_eq!(
        shape.max_extent(whole(1, 1)),
        Rect { min: whole(-4, -4), max: whole(6, 6) }
    );
    assert_eq!(
        Shape { lines: vec![] }.max_extent(whole(3, 3)),
        Rect { min: whole(3, 3), max: whole(3, 3) }
    );
}

#[test]
fn a_turn_by_nothing_changes_nothing() {
    let shape = Shape {
        lines: vec![vec![whole(1, 1), whole(4, 5), whole(-2, 1)], vec![whole(7, 7), whole(8, 9)]],
    };
    assert_eq!(shape.rotate(Fixed::zero(), whole(3, -3)).lines, shape.lines);
}

#[test]
fn a_turned_square() {
    let square = Shape {
        lines: vec![vec![whole(1, 1), whole(-1, 1), whole(-1, -1), whole(1, -1), whole(1, 1)]],
    };
    let there = square.rotate(Fixed::one(), Point::origin());
    let found: Vec<(i64, i64)> = there.lines[0].iter().map(|p| (p.x.raw, p.y.raw)).collect();
    assert_eq!(
        found,
        vec![
            (-1_293_509_627, 5_934_671_093),
            (-5_934_671_093, -1_293_509_627),
            (1_293_509_627, -5_934_671_093),
            (5_934_671_093, 1_293_509_627),
            (-1_293_509_627, 5_934_671_093),
        ]
    );
    let back = there.rotate(Fixed::from_int(-1), Point::origin());
    let found: Vec<(i64, i64)> = back.lines[0].iter().map(|p| (p.x.raw, p.y.raw)).collect();
    assert_eq!(
        found,
        vec![
            (4_294_967_295, 4_294_967_294),
            (-4_294_967_294, 4_294_967_295),
            (-4_294_967_295, -4_294_967_294),
            (4_294_967_294, -4_294_967_295),
            (4_294_967_295, 4_294_967_294),
        ]
    );
}

#[test]
fn a_turn_and_the_opposite_turn_cancel() {
    let convex = Shape::regular_polygon(5, Fixed::from_int(3), whole(2, -1)).unwrap();
    let star = Shape {
        lines: vec![
            vec![
                whole(0, 4),
                whole(1, 1),
                whole(4, 0),
                whole(1, -1),
                whole(0, -4),
                whole(-1, -1),
                whole(-4, 0),
                whole(-1, 1),
                whole(0, 4),
            ],
            vec![whole(100_000, -70_000), whole(-3, 90_000)],
        ],
    };
    let centers = [Point::origin(), whole(2, -1), whole(-1000, 5000)];
    for shape in [&convex, &star] {
        for center in centers {
            let mut k: i64 = -40;
            while k <= 40 {
                let angle = fx(k * 1_234_567_891);
                let back = shape.rotate(angle, center).rotate(angle.neg(), center);
                assert_eq!(back.lines.len(), shape.lines.len());
                for (line, turned) in shape.lines.iter().zip(back.lines.iter()) {
                    assert_eq!(line.len(), turned.len());
                    for (p, q) in line.iter().zip(turned.iter()) {
                        assert!((q.x.raw - p.x.raw).abs() <= tolerance(p.x.raw - center.x.raw));
                        assert!((q.y.raw - p.y.raw).abs() <= tolerance(p.y.raw - center.y.raw));
                    }
                }
                k += 1;
            }
        }
    }
}

#[test]
fn the_extent_holds_every_point() {
    let shape = Shape::regular_polygon(9, Fixed::from_ratio(5, 2), whole(3, -4))
        .unwrap()
        .rotate(Fixed::from_ratio(2, 7), whole(1, 1));
    let center = whole(1, 1);
    let extent = shape.max_extent(center);
    let half = extent.max.x.raw - center.x.raw;
    assert_eq!(extent.max.y.raw - center.y.raw, half);
    assert_eq!(center.x.raw - extent.min.x.raw, half);
    assert_eq!(center.y.raw - extent.min.y.raw, half);
    let mut reached = false;
    for p in shape.all_points() {
        let distance = p.minus(center).length().raw;
        assert!(distance <= half);
        reached = reached || distance == half;
        assert!(extent.min.x.raw <= p.x.raw && p.x.raw <= extent.max.x.raw);
        assert!(extent.min.y.raw <= p.y.raw && p.y.raw <= extent.max.y.raw);
    }
    assert!(reached);
}

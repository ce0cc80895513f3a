//! Polylines: the outline of the cage.

use vstd::prelude::*;
use crate::error::ConfigError;
use crate::fixed::Fixed;
use crate::trig::{Rotation, FULL_TURN};
use crate::vector::{Point, Vector};

verus! {

/// A pair of consecutive points of a line.
pub type Segment = (Point, Point);

/// An open or closed chain of points.
pub type Line = Vec<Point>;

/// One or more lines. A line is closed where its last point repeats its first.
#[derive(Clone, Debug)]
pub struct Shape {
    pub lines: Vec<Line>,
}

/// An axis-aligned rectangle, by its corners.
#[derive(Clone, Copy, Debug, PartialEq, Eq, Structural)]
pub struct Rect {
    pub min: Point,
    pub max: Point,
}

impl View for Shape {
    type V = Seq<Seq<Point>>;

    /// The lines, each as the sequence of its points.
    open spec fn view(&self) -> Seq<Seq<Point>> {
        Seq::new(self.lines@.len(), |i: int| self.lines@[i]@)
    }
}

/// The pairs of consecutive points of one line.
pub open spec fn line_segments(line: Seq<Point>) -> Seq<Segment> {
    Seq::new(
        if line.len() >= 1 {
            (line.len() - 1) as nat
        } else {
            0
        },
        |i: int| (line[i], line[i + 1]),
    )
}

/// The points of all lines, in order.
pub open spec fn flatten_points(lines: Seq<Seq<Point>>) -> Seq<Point>
    decreases lines.len(),
{
    if lines.len() == 0 {
        Seq::empty()
    } else {
        flatten_points(lines.drop_last()) + lines.last()
    }
}

/// The segments of all lines, in order; none joins one line to the next.
pub open spec fn flatten_segments(lines: Seq<Seq<Point>>) -> Seq<Segment>
    decreases lines.len(),
{
    if lines.len() == 0 {
        Seq::empty()
    } else {
        flatten_segments(lines.drop_last()) + line_segments(lines.last())
    }
}

/// The segments of a chain of points taken as a closed curve: the consecutive
/// pairs, and one more from the last point back to the first where they differ.
pub open spec fn closed_segments(points: Seq<Point>) -> Seq<Segment> {
    if points.len() > 0 && points.first() != points.last() {
        line_segments(points).push((points.last(), points.first()))
    } else {
        line_segments(points)
    }
}

/// The lines with every point turned by `rot` about `center`.
pub open spec fn rotate_lines(lines: Seq<Seq<Point>>, rot: Rotation, center: Point) -> Seq<
    Seq<Point>,
> {
    Seq::new(
        lines.len(),
        |i: int| Seq::new(lines[i].len(), |j: int| lines[i][j].spec_rotated_about(rot, center)),
    )
}

/// The raw angle of corner `i` of a regular polygon of `n` sides.
pub open spec fn corner_angle(i: int, n: int) -> Fixed {
    Fixed { raw: (i * FULL_TURN / n) as i64 }
}

/// Corner `i` of a regular polygon of `n` sides.
pub open spec fn polygon_corner(i: int, n: int, radius: Fixed, center: Point) -> Point {
    let rot = Rotation::spec_from_angle(corner_angle(i, n));
    center.spec_offset(Vector { x: radius.spec_mul(rot.cos), y: radius.spec_mul(rot.sin) })
}

/// The largest raw distance from `center` to one of `points`; zero where there is none.
pub open spec fn max_radius(points: Seq<Point>, center: Point) -> int
    decreases points.len(),
{
    if points.len() == 0 {
        0
    } else {
        let rest = max_radius(points.drop_last(), center);
        let here = points.last().spec_minus(center).spec_length().raw as int;
        if here > rest {
            here
        } else {
            rest
        }
    }
}

/// Whether every line has at least two points.
pub open spec fn lines_valid(lines: Seq<Seq<Point>>) -> bool {
    forall|i: int| 0 <= i < lines.len() ==> (#[trigger] lines[i]).len() >= 2
}

/// Where there is a point, one of the points lies at the largest distance.
pub proof fn lemma_max_radius_attained(points: Seq<Point>, center: Point)
    requires
        points.len() > 0,
    ensures
        exists|i: int|
            0 <= i < points.len() && (#[trigger] points[i]).spec_minus(center).spec_length().raw
                == max_radius(points, center),
    decreases points.len(),
{
    let last = points.len() - 1;
    let here = points[last].spec_minus(center).spec_length().raw as int;
    crate::vector::lemma_length_nonnegative(points[last].spec_minus(center));
    if points.len() == 1 {
        assert(max_radius(points.drop_last(), center) == 0);
        assert(points[last].spec_minus(center).spec_length().raw == max_radius(points, center));
    } else if here > max_radius(points.drop_last(), center) {
        assert(points[last].spec_minus(center).spec_length().raw == max_radius(points, center));
    } else {
        lemma_max_radius_attained(points.drop_last(), center);
        let i = choose|i: int|
            0 <= i < points.drop_last().len() && (#[trigger] points.drop_last()[i]).spec_minus(
                center,
            ).spec_length().raw == max_radius(points.drop_last(), center);
        assert(points[i] == points.drop_last()[i]);
    }
}

/// No point lies farther from the center than the largest distance.
pub proof fn lemma_max_radius_bounds(points: Seq<Point>, center: Point, i: int)
    requires
        0 <= i < points.len(),
    ensures
        0 <= points[i].spec_minus(center).spec_length().raw <= max_radius(points, center),
    decreases points.len(),
{
    crate::vector::lemma_length_nonnegative(points[i].spec_minus(center));
    if i < points.len() - 1 {
        lemma_max_radius_bounds(points.drop_last(), center, i);
    }
}

impl Shape {
    /// Whether every line has at least two points.
    pub open spec fn wf(&self) -> bool {
        lines_valid(self@)
    }

    /// A shape of the given lines; refused where a line has fewer than two points.
    pub fn new(lines: Vec<Line>) -> (r: Result<Shape, ConfigError>)
        ensures
            match r {
                Ok(shape) => shape.lines == lines && shape.wf(),
                Err(e) => e == ConfigError::DegenerateLine && !lines_valid(
                    Seq::new(lines@.len(), |i: int| lines@[i]@),
                ),
            },
    {
        let shape = Shape { lines };
        if shape.is_valid() {
            Ok(shape)
        } else {
            Err(ConfigError::DegenerateLine)
        }
    }

    /// Whether every line has at least two points.
    pub fn is_valid(&self) -> (ok: bool)
        ensures
            ok == self.wf(),
    {
        let mut i: usize = 0;
        while i < self.lines.len()
            invariant
                0 <= i <= self.lines.len(),
                forall|k: int| 0 <= k < i ==> (#[trigger] self@[k]).len() >= 2,
            decreases self.lines.len() - i,
        {
            if self.lines[i].len() < 2 {
                assert(self@[i as int].len() < 2);
                return false;
            }
            i += 1;
        }
        true
    }

    /// The regular polygon of `num_sides` sides inscribed in the circle of
    /// the given radius and center, as one closed line that starts on the
    /// positive x axis. Refused where there is no side.
    pub fn regular_polygon(num_sides: usize, radius: Fixed, center: Point) -> (r: Result<
        Shape,
        ConfigError,
    >)
        requires
            num_sides < usize::MAX,
        ensures
            match r {
                Ok(shape) => {
                    &&& num_sides >= 1
                    &&& shape@ == seq![
                        Seq::new(
                            (num_sides + 1) as nat,
                            |i: int| polygon_corner(i, num_sides as int, radius, center),
                        ),
                    ]
                    &&& shape.wf()
                },
                Err(e) => e == ConfigError::DegenerateLine && num_sides == 0,
            },
    {
        if num_sides == 0 {
            return Err(ConfigError::DegenerateLine);
        }
        let mut line: Vec<Point> = Vec::new();
        let mut i: usize = 0;
        while i <= num_sides
            invariant
                0 <= i <= num_sides + 1,
                1 <= num_sides < usize::MAX,
                line@ == Seq::new(
                    i as nat,
                    |k: int| polygon_corner(k, num_sides as int, radius, center),
                ),
            decreases num_sides + 1 - i,
        {
            assert(0 <= i * 26_986_075_408 <= num_sides * 26_986_075_408 && num_sides
                * 26_986_075_408 <= 0xffff_ffff_ffff_ffff * 26_986_075_408) by (nonlinear_arith)
                requires
                    0 <= i <= num_sides <= 0xffff_ffff_ffff_ffff;
            let turn: u128 = (i as u128) * 26_986_075_408;
            let raw: u128 = turn / (num_sides as u128);
            assert(raw <= 26_986_075_408) by (nonlinear_arith)
                requires
                    raw == turn / (num_sides as u128),
                    turn <= num_sides * 26_986_075_408,
                    num_sides >= 1;
            let rot = Rotation::from_angle(Fixed { raw: raw as i64 });
            let corner = center.offset(Vector { x: radius.mul(rot.cos), y: radius.mul(rot.sin) });
            assert(corner == polygon_corner(i as int, num_sides as int, radius, center));
            line.push(corner);
            i += 1;
        }
        let mut lines: Vec<Line> = Vec::new();
        lines.push(line);
        let shape = Shape { lines };
        assert(shape@ =~= seq![
            Seq::new(
                (num_sides + 1) as nat,
                |i: int| polygon_corner(i, num_sides as int, radius, center),
            ),
        ]);
        Ok(shape)
    }

    /// The points of all lines, in order.
    pub fn all_points(&self) -> (r: Vec<Point>)
        ensures
            r@ == flatten_points(self@),
    {
        let mut out: Vec<Point> = Vec::new();
        let mut i: usize = 0;
        while i < self.lines.len()
            invariant
                0 <= i <= self.lines.len(),
                out@ == flatten_points(self@.take(i as int)),
            decreases self.lines.len() - i,
        {
            let ghost before = out@;
            let mut j: usize = 0;
            while j < self.lines[i].len()
                invariant
                    0 <= i < self.lines.len(),
                    0 <= j <= self.lines[i as int].len(),
                    out@ == before + self@[i as int].take(j as int),
                decreases self.lines[i as int].len() - j,
            {
                out.push(self.lines[i][j]);
                assert(self@[i as int].take(j + 1) =~= self@[i as int].take(j as int).push(
                    self@[i as int][j as int],
                ));
                j += 1;
            }
            proof {
                assert(self@[i as int].take(j as int) =~= self@[i as int]);
                assert(self@.take(i + 1).drop_last() =~= self@.take(i as int));
                assert(self@.take(i + 1).last() == self@[i as int]);
            }
            i += 1;
        }
        assert(self@.take(i as int) =~= self@);
        out
    }

    /// The consecutive pairs of points of each line. The segment that closes a
    /// line is among them only where the line repeats its first point at the end.
    pub fn all_segments(&self) -> (r: Vec<Segment>)
        ensures
            r@ == flatten_segments(self@),
    {
        let mut out: Vec<Segment> = Vec::new();
        let mut i: usize = 0;
        while i < self.lines.len()
            invariant
                0 <= i <= self.lines.len(),
                out@ == flatten_segments(self@.take(i as int)),
            decreases self.lines.len() - i,
        {
            let ghost before = out@;
            let ghost here = line_segments(self@[i as int]);
            let mut j: usize = 0;
            while j + 1 < self.lines[i].len()
                invariant
                    0 <= i < self.lines.len(),
                    here == line_segments(self@[i as int]),
                    0 <= j <= here.len(),
                    here.len() < self.lines[i as int].len() || here.len() == 0,
                    out@ == before + here.take(j as int),
                decreases self.lines[i as int].len() - j,
            {
                out.push((self.lines[i][j], self.lines[i][j + 1]));
                assert(here.take(j + 1) =~= here.take(j as int).push(here[j as int]));
                j += 1;
            }
            proof {
                assert(here.take(j as int) =~= here);
                assert(self@.take(i + 1).drop_last() =~= self@.take(i as int));
                assert(self@.take(i + 1).last() == self@[i as int]);
            }
            i += 1;
        }
        assert(self@.take(i as int) =~= self@);
        out
    }

    /// The segments of the shape taken as one closed curve: all points in
    /// order, each joined to the next, and the last joined to the first where
    /// they differ. An opening between lines is bridged.
    pub fn all_segments_including_openings(&self) -> (r: Vec<Segment>)
        ensures
            r@ == closed_segments(flatten_points(self@)),
    {
        let points = self.all_points();
        let ghost open = line_segments(points@);
        let mut out: Vec<Segment> = Vec::new();
        let mut j: usize = 0;
        while j + 1 < points.len()
            invariant
                open == line_segments(points@),
                0 <= j <= open.len(),
                open.len() < points.len() || open.len() == 0,
                out@ == open.take(j as int),
            decreases points.len() - j,
        {
            out.push((points[j], points[j + 1]));
            assert(open.take(j + 1) =~= open.take(j as int).push(open[j as int]));
            j += 1;
        }
        assert(open.take(j as int) =~= open);
        if points.len() > 0 {
            let first = points[0];
            let last = points[points.len() - 1];
            if first != last {
                out.push((last, first));
            }
        }
        out
    }

    /// The square about `center` whose half-width is the distance from
    /// `center` to the farthest point of the shape.
    pub fn max_extent(&self, center_of_rotation: Point) -> (r: Rect)
        ensures
            r == spec_max_extent(flatten_points(self@), center_of_rotation),
            forall|i: int|
                0 <= i < flatten_points(self@).len() ==> (#[trigger] flatten_points(
                    self@,
                )[i]).spec_minus(center_of_rotation).spec_length().raw <= max_radius(
                    flatten_points(self@),
                    center_of_rotation,
                ),
    {
        let points = self.all_points();
        assert forall|i: int| 0 <= i < points@.len() implies (#[trigger] points@[i]).spec_minus(
            center_of_rotation,
        ).spec_length().raw <= max_radius(points@, center_of_rotation) by {
            lemma_max_radius_bounds(points@, center_of_rotation, i);
        }
        let mut best: Fixed = Fixed::zero();
        let mut j: usize = 0;
        while j < points.len()
            invariant
                0 <= j <= points.len(),
                best.raw == max_radius(points@.take(j as int), center_of_rotation),
            decreases points.len() - j,
        {
            let here = points[j].minus(center_of_rotation).length();
            proof {
                assert(points@.take(j + 1).drop_last() =~= points@.take(j as int));
                assert(points@.take(j + 1).last() == points@[j as int]);
            }
            if here.raw > best.raw {
                best = here;
            }
            j += 1;
        }
        assert(points@.take(j as int) =~= points@);
        let half = Vector { x: best, y: best };
        Rect { min: center_of_rotation.offset(half.neg()), max: center_of_rotation.offset(half) }
    }

    /// A copy with every point turned by `angle` radians about
    /// `center_of_rotation`.
    pub fn rotate(&self, angle: Fixed, center_of_rotation: Point) -> (r: Shape)
        ensures
            r@ == rotate_lines(self@, Rotation::spec_from_angle(angle), center_of_rotation),
            self.wf() ==> r.wf(),
    {
        let rot = Rotation::from_angle(angle);
        let ghost target = rotate_lines(self@, rot, center_of_rotation);
        let mut lines: Vec<Line> = Vec::new();
        let mut i: usize = 0;
        while i < self.lines.len()
            invariant
                0 <= i <= self.lines.len(),
                target == rotate_lines(self@, rot, center_of_rotation),
                lines@.len() == i,
                forall|k: int| 0 <= k < i ==> (#[trigger] lines@[k])@ == target[k],
            decreases self.lines.len() - i,
        {
            let mut line: Vec<Point> = Vec::new();
            let mut j: usize = 0;
            while j < self.lines[i].len()
                invariant
                    0 <= i < self.lines.len(),
                    target == rotate_lines(self@, rot, center_of_rotation),
                    0 <= j <= self.lines[i as int].len(),
                    line@ == target[i as int].take(j as int),
                decreases self.lines[i as int].len() - j,
            {
                line.push(self.lines[i][j].rotated_about(rot, center_of_rotation));
                assert(target[i as int].take(j + 1) =~= target[i as int].take(j as int).push(
                    target[i as int][j as int],
                ));
                j += 1;
            }
            assert(target[i as int].take(j as int) =~= target[i as int]);
            lines.push(line);
            i += 1;
        }
        let shape = Shape { lines };
        assert(shape@ =~= target);
        shape
    }
}

/// The square about `center` whose half-width is the largest distance from
/// `center` to one of `points`.
pub open spec fn spec_max_extent(points: Seq<Point>, center: Point) -> Rect {
    let best = Fixed { raw: max_radius(points, center) as i64 };
    let half = Vector { x: best, y: best };
    Rect { min: center.spec_offset(half.spec_neg()), max: center.spec_offset(half) }
}

/// Whether the ray from `point` in the direction of growing x meets the line
/// through `start` and `end` at the height of `point`: whether
/// `point.x < start.x + (end.x - start.x) (point.y - start.y) / (end.y - start.y)`,
/// decided without rounding. Meaningful where `start.y != end.y`.
pub open spec fn ray_meets(point: Point, start: Point, end: Point) -> bool {
    let rise = end.y.raw - start.y.raw;
    let left = (point.x.raw - start.x.raw) * rise;
    let right = (end.x.raw - start.x.raw) * (point.y.raw - start.y.raw);
    if rise > 0 {
        left < right
    } else {
        left > right
    }
}

/// What one segment adds to the winding number about `point`: 1 where it
/// crosses the ray upward, -1 where it crosses it downward, else 0.
pub open spec fn crossing(point: Point, segment: Segment) -> int {
    let start = segment.0;
    let end = segment.1;
    if (start.y.raw > point.y.raw) != (end.y.raw > point.y.raw) && ray_meets(point, start, end) {
        if end.y.raw > start.y.raw {
            1
        } else {
            -1
        }
    } else {
        0
    }
}

/// The sum of the crossings of `segments`.
pub open spec fn winding_sum(point: Point, segments: Seq<Segment>) -> int
    decreases segments.len(),
{
    if segments.len() == 0 {
        0
    } else {
        winding_sum(point, segments.drop_last()) + crossing(point, segments.last())
    }
}

/// The winding number of the closed curve through all points of `lines` about `point`.
pub open spec fn spec_winding_number(point: Point, lines: Seq<Seq<Point>>) -> int {
    winding_sum(point, closed_segments(flatten_points(lines)))
}

/// `v` clamped to the range of a 32-bit signed integer.
pub open spec fn clamp_i32(v: int) -> int {
    if v < i32::MIN {
        i32::MIN as int
    } else if v > i32::MAX {
        i32::MAX as int
    } else {
        v
    }
}

/// The magnitude of a difference of two raw coordinates.
fn span(v: i128) -> (m: u128)
    requires
        -0xffff_ffff_ffff_ffff <= v <= 0xffff_ffff_ffff_ffff,
    ensures
        m <= 0xffff_ffff_ffff_ffff,
        m == (if v < 0 {
            -v
        } else {
            v as int
        }),
{
    if v < 0 {
        (-v) as u128
    } else {
        v as u128
    }
}

/// Whether `a * b < c * d`, for differences of raw coordinates.
fn product_less(a: i128, b: i128, c: i128, d: i128) -> (less: bool)
    requires
        -0xffff_ffff_ffff_ffff <= a <= 0xffff_ffff_ffff_ffff,
        -0xffff_ffff_ffff_ffff <= b <= 0xffff_ffff_ffff_ffff,
        -0xffff_ffff_ffff_ffff <= c <= 0xffff_ffff_ffff_ffff,
        -0xffff_ffff_ffff_ffff <= d <= 0xffff_ffff_ffff_ffff,
    ensures
        less == (a * b < c * d),
{
    let ma: u128 = span(a);
    let mb: u128 = span(b);
    let mc: u128 = span(c);
    let md: u128 = span(d);
    assert(0 <= ma * mb <= 0xffff_ffff_ffff_ffff * 0xffff_ffff_ffff_ffff && (ma * mb == a * b
        || ma * mb == -(a * b)) && (ma * mb == 0 <==> a * b == 0) && ((a * b > 0) <==> (a > 0 && b
        > 0 || a < 0 && b < 0))) by (nonlinear_arith)
        requires
            0 <= ma <= 0xffff_ffff_ffff_ffff,
            0 <= mb <= 0xffff_ffff_ffff_ffff,
            ma == a || ma == -a,
            mb == b || mb == -b;
    assert(0 <= mc * md <= 0xffff_ffff_ffff_ffff * 0xffff_ffff_ffff_ffff && (mc * md == c * d
        || mc * md == -(c * d)) && (mc * md == 0 <==> c * d == 0) && ((c * d > 0) <==> (c > 0 && d
        > 0 || c < 0 && d < 0))) by (nonlinear_arith)
        requires
            0 <= mc <= 0xffff_ffff_ffff_ffff,
            0 <= md <= 0xffff_ffff_ffff_ffff,
            mc == c || mc == -c,
            md == d || md == -d;
    let left: u128 = ma * mb;
    let right: u128 = mc * md;
    let left_positive: bool = (a > 0 && b > 0) || (a < 0 && b < 0);
    let right_positive: bool = (c > 0 && d > 0) || (c < 0 && d < 0);
    if left == 0 {
        right_positive
    } else if right == 0 {
        !left_positive
    } else if left_positive {
        right_positive && left < right
    } else {
        right_positive || left > right
    }
}

/// What one segment adds to the winding number about `point`.
fn crossing_of(point: Point, segment: Segment) -> (r: i128)
    ensures
        r == crossing(point, segment),
        -1 <= r <= 1,
{
    let start = segment.0;
    let end = segment.1;
    if (start.y.raw > point.y.raw) != (end.y.raw > point.y.raw) {
        let rise: i128 = end.y.raw as i128 - start.y.raw as i128;
        let run: i128 = end.x.raw as i128 - start.x.raw as i128;
        let across: i128 = point.x.raw as i128 - start.x.raw as i128;
        let up: i128 = point.y.raw as i128 - start.y.raw as i128;
        let meets = if rise > 0 {
            product_less(across, rise, run, up)
        } else {
            product_less(run, up, across, rise)
        };
        if meets {
            if end.y.raw > start.y.raw {
                1
            } else {
                -1
            }
        } else {
            0
        }
    } else {
        0
    }
}

/// The winding number about `point` of the shape taken as one closed curve
/// (an opening is bridged by a straight segment): the crossings of the ray
/// from `point` toward growing x, counted 1 upward and -1 downward. It is zero
/// exactly where the curve does not wind around the point. Clamped to the
/// range of the result.
pub fn compute_winding_number(point: Point, shape: &Shape) -> (w: i32)
    ensures
        w == clamp_i32(spec_winding_number(point, shape@)),
        w == 0 <==> spec_winding_number(point, shape@) == 0,
{
    let segments = shape.all_segments_including_openings();
    let mut total: i128 = 0;
    let mut i: usize = 0;
    while i < segments.len()
        invariant
            0 <= i <= segments.len(),
            total == winding_sum(point, segments@.take(i as int)),
            -i <= total <= i,
        decreases segments.len() - i,
    {
        let step = crossing_of(point, segments[i]);
        proof {
            assert(segments@.take(i + 1).drop_last() =~= segments@.take(i as int));
            assert(segments@.take(i + 1).last() == segments@[i as int]);
        }
        total = total + step;
        i += 1;
    }
    assert(segments@.take(i as int) =~= segments@);
    if total < i32::MIN as i128 {
        i32::MIN
    } else if total > i32::MAX as i128 {
        i32::MAX
    } else {
        total as i32
    }
}

} // verus!

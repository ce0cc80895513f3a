//! What holds of the test for escape: a point beyond the outline on any
//! side is out of it.

use vstd::prelude::*;
use crate::shape::{
    closed_segments, crossing, flatten_points, line_segments, ray_meets, spec_winding_number,
    winding_sum, Segment,
};
use crate::vector::Point;

verus! {

/// Whether `point` lies beyond all of `others` on one side: none of them is
/// to its right, or all are; or none of them is above it, or all are.
pub open spec fn is_beyond(point: Point, others: Seq<Point>) -> bool {
    ||| forall|i: int| 0 <= i < others.len() ==> (#[trigger] others[i]).x.raw <= point.x.raw
    ||| forall|i: int| 0 <= i < others.len() ==> (#[trigger] others[i]).x.raw > point.x.raw
    ||| forall|i: int| 0 <= i < others.len() ==> (#[trigger] others[i]).y.raw <= point.y.raw
    ||| forall|i: int| 0 <= i < others.len() ==> (#[trigger] others[i]).y.raw > point.y.raw
}

/// One where `p` is above `point`, else zero.
pub open spec fn above(p: Point, point: Point) -> int {
    if p.y.raw > point.y.raw {
        1
    } else {
        0
    }
}

/// The ray toward growing x from a point with nothing to its right meets no segment.
proof fn lemma_nothing_to_the_right(point: Point, segment: Segment)
    requires
        segment.0.x.raw <= point.x.raw,
        segment.1.x.raw <= point.x.raw,
    ensures
        crossing(point, segment) == 0,
{
    let start = segment.0;
    let end = segment.1;
    let rise = end.y.raw - start.y.raw;
    let run = end.x.raw - start.x.raw;
    let across = point.x.raw - start.x.raw;
    let up = point.y.raw - start.y.raw;
    if (start.y.raw > point.y.raw) != (end.y.raw > point.y.raw) {
        if rise > 0 {
            assert(across * rise >= run * up) by (nonlinear_arith)
                requires
                    across >= 0,
                    across >= run,
                    0 <= up < rise,
            {
                if run > 0 {
                    assert(run * up <= run * rise);
                    assert(run * rise <= across * rise);
                } else {
                    assert(run * up <= 0);
                    assert(across * rise >= 0);
                }
            }
        } else {
            assert(across * rise <= run * up) by (nonlinear_arith)
                requires
                    across >= 0,
                    across >= run,
                    rise <= up < 0,
            {
                if run > 0 {
                    assert(run * up >= run * rise);
                    assert(run * rise >= across * rise);
                } else {
                    assert(run * up >= 0);
                    assert(across * rise <= 0);
                }
            }
        }
    }
}

/// The ray from a point with everything to its right meets every segment
/// that passes its height: a segment counts one where it ends above the
/// point and began not above, and minus one the other way round.
proof fn lemma_everything_to_the_right(point: Point, segment: Segment)
    requires
        segment.0.x.raw > point.x.raw,
        segment.1.x.raw > point.x.raw,
    ensures
        crossing(point, segment) == above(segment.1, point) - above(segment.0, point),
{
    let start = segment.0;
    let end = segment.1;
    let rise = end.y.raw - start.y.raw;
    let run = end.x.raw - start.x.raw;
    let across = point.x.raw - start.x.raw;
    let up = point.y.raw - start.y.raw;
    if (start.y.raw > point.y.raw) != (end.y.raw > point.y.raw) {
        if rise > 0 {
            assert(across * rise < run * up) by (nonlinear_arith)
                requires
                    across < 0,
                    across < run,
                    0 <= up < rise,
            {
                if run >= 0 {
                    assert(run * up >= 0);
                    assert(across * rise < 0);
                } else {
                    assert(run * up >= run * rise);
                    assert(run * rise > across * rise);
                }
            }
        } else {
            assert(across * rise > run * up) by (nonlinear_arith)
                requires
                    across < 0,
                    across < run,
                    rise <= up < 0,
            {
                if run >= 0 {
                    assert(run * up <= 0);
                    assert(across * rise > 0);
                } else {
                    assert(run * up <= run * rise);
                    assert(run * rise < across * rise);
                }
            }
        }
        assert(ray_meets(point, start, end));
    }
}

/// Segments that each count nothing count nothing together.
proof fn lemma_no_crossings(point: Point, segments: Seq<Segment>)
    requires
        forall|i: int| 0 <= i < segments.len() ==> crossing(point, #[trigger] segments[i]) == 0,
    ensures
        winding_sum(point, segments) == 0,
    decreases segments.len(),
{
    if segments.len() > 0 {
        let before = segments.drop_last();
        assert forall|i: int| 0 <= i < before.len() implies crossing(point, #[trigger] before[i])
            == 0 by {
            assert(before[i] == segments[i]);
        }
        lemma_no_crossings(point, before);
    }
}

/// Along a chain whose every segment counts by where it begins and ends,
/// the counts add up to where the chain begins and ends.
proof fn lemma_crossings_telescope(point: Point, points: Seq<Point>)
    requires
        points.len() >= 1,
        forall|i: int|
            0 <= i < line_segments(points).len() ==> crossing(
                point,
                #[trigger] line_segments(points)[i],
            ) == above(line_segments(points)[i].1, point) - above(
                line_segments(points)[i].0,
                point,
            ),
    ensures
        winding_sum(point, line_segments(points)) == above(points.last(), point) - above(
            points.first(),
            point,
        ),
    decreases points.len(),
{
    let segments = line_segments(points);
    if points.len() >= 2 {
        let shorter = points.drop_last();
        assert(line_segments(shorter) =~= segments.drop_last());
        assert forall|i: int| 0 <= i < line_segments(shorter).len() implies crossing(
            point,
            #[trigger] line_segments(shorter)[i],
        ) == above(line_segments(shorter)[i].1, point) - above(
            line_segments(shorter)[i].0,
            point,
        ) by {
            assert(line_segments(shorter)[i] == segments[i]);
        }
        lemma_crossings_telescope(point, shorter);
        assert(segments.last() == (points[points.len() - 2], points[points.len() - 1]));
    }
}

/// Nothing winds around a point that lies beyond all points of a chain on
/// one side.
pub proof fn lemma_beyond_the_chain(point: Point, points: Seq<Point>)
    requires
        is_beyond(point, points),
    ensures
        winding_sum(point, closed_segments(points)) == 0,
{
    let segments = closed_segments(points);
    let open = line_segments(points);
    let everything_right = forall|i: int|
        0 <= i < points.len() ==> (#[trigger] points[i]).x.raw > point.x.raw;
    if points.len() == 0 {
        assert(segments.len() == 0);
    } else if everything_right {
        assert forall|i: int| 0 <= i < open.len() implies crossing(point, #[trigger] open[i])
            == above(open[i].1, point) - above(open[i].0, point) by {
            assert(open[i] == (points[i], points[i + 1]));
            lemma_everything_to_the_right(point, open[i]);
        }
        lemma_crossings_telescope(point, points);
        if points.first() != points.last() {
            assert(segments.drop_last() =~= open);
            assert(segments.last() == (points.last(), points.first()));
            assert(points.first() == points[0] && points.last() == points[points.len() - 1]);
            lemma_everything_to_the_right(point, segments.last());
        }
    } else {
        assert forall|i: int| 0 <= i < segments.len() implies crossing(
            point,
            #[trigger] segments[i],
        ) == 0 by {
            let segment = segments[i];
            if i < open.len() {
                assert(segment == (points[i], points[i + 1]));
            } else {
                assert(segment == (points[points.len() - 1], points[0]));
            }
            let a = if i < open.len() {
                i
            } else {
                points.len() - 1
            };
            let b = if i < open.len() {
                i + 1
            } else {
                0
            };
            assert(segment == (points[a], points[b]));
            if forall|k: int| 0 <= k < points.len() ==> (#[trigger] points[k]).x.raw <= point.x.raw {
                lemma_nothing_to_the_right(point, segment);
            }
        }
        lemma_no_crossings(point, segments);
    }
}

/// A point beyond the shape on one side is out of it: its winding number is zero.
pub proof fn lemma_beyond_the_shape(point: Point, lines: Seq<Seq<Point>>)
    requires
        is_beyond(point, flatten_points(lines)),
    ensures
        spec_winding_number(point, lines) == 0,
{
    lemma_beyond_the_chain(point, flatten_points(lines));
}

} // verus!

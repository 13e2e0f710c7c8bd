//! The walk along a segment.
//!
//! A segment is sampled at equal parts, one part for each unit of its
//! longest extent along an axis, both ends included. The walk names each
//! sample by its part; where the sample lies is for the caller to work out.

use vstd::math::max;
use vstd::prelude::*;
use crate::cube::Point3;

verus! {

/// A sample on a segment: the point `step` parts of `steps` from `from`
/// towards `to`.
#[derive(Clone, Copy, Debug, PartialEq, Eq, Structural)]
pub struct WalkPoint {
    /// Where the segment starts.
    pub from: Point3,
    /// Where the segment ends.
    pub to: Point3,
    /// The number of the sample, from zero at the start.
    pub step: u32,
    /// The number of parts the segment is cut into; never zero.
    pub steps: u32,
}

/// The distance between two coordinates.
pub open spec fn extent(a: i32, b: i32) -> int {
    if a <= b {
        b - a
    } else {
        a - b
    }
}

/// The longest extent of the segment along an axis (the Chebyshev distance
/// of its ends).
pub open spec fn span(from: Point3, to: Point3) -> int {
    max(max(extent(from.x, to.x), extent(from.y, to.y)), extent(from.z, to.z))
}

/// The number of parts a segment is cut into: its span, or one where the
/// ends coincide.
pub open spec fn parts(from: Point3, to: Point3) -> int {
    if span(from, to) == 0 {
        1
    } else {
        span(from, to)
    }
}

/// The samples of a segment from start to end: one more than its span. A
/// segment whose ends coincide has the single sample at its start.
pub open spec fn walk_of(from: Point3, to: Point3) -> Seq<WalkPoint> {
    Seq::new(
        (span(from, to) + 1) as nat,
        |i: int| WalkPoint { from, to, step: i as u32, steps: parts(from, to) as u32 },
    )
}

/// The distance between two coordinates; it fits in 32 bits without sign.
fn coordinate_extent(a: i32, b: i32) -> (d: u32)
    ensures
        d == extent(a, b),
{
    if a <= b {
        (b as i64 - a as i64) as u32
    } else {
        (a as i64 - b as i64) as u32
    }
}

/// The span of a segment.
pub fn line_steps(from: Point3, to: Point3) -> (steps: u32)
    ensures
        steps == span(from, to),
{
    let dx: u32 = coordinate_extent(from.x, to.x);
    let dy: u32 = coordinate_extent(from.y, to.y);
    let dz: u32 = coordinate_extent(from.z, to.z);
    if dx >= dy && dx >= dz {
        dx
    } else if dy >= dz {
        dy
    } else {
        dz
    }
}

/// The samples of a segment, from its start to its end.
pub fn walk(from: Point3, to: Point3) -> (points: Vec<WalkPoint>)
    ensures
        points@ == walk_of(from, to),
{
    let last: u32 = line_steps(from, to);
    let steps: u32 = if last == 0 {
        1
    } else {
        last
    };
    let mut points: Vec<WalkPoint> = Vec::new();
    let mut step: u32 = 0;
    while step < last
        invariant
            step <= last,
            last == span(from, to),
            steps == parts(from, to),
            points.len() == step,
            forall|i: int| 0 <= i < step ==> points[i] == walk_of(from, to)[i],
        decreases last - step,
    {
        points.push(WalkPoint { from, to, step, steps });
        step += 1;
    }
    points.push(WalkPoint { from, to, step, steps });
    assert(points@ =~= walk_of(from, to));
    points
}

} // verus!

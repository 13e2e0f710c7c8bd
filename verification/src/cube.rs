//! The cube: eight corners and the twelve edges between them.
//!
//! The cube is centred on the origin and its faces are parallel to the
//! axes. Corners are numbered round the face `z = -CUBE_WIDTH` first, then
//! round the face `z = CUBE_WIDTH` in the same sense.

use vstd::prelude::*;

verus! {

/// Half the length of an edge: every coordinate of a corner is this or its
/// negation.
pub const CUBE_WIDTH: i32 = 10;

/// Number of corners.
pub const VERTEX_COUNT: usize = 8;

/// Number of edges.
pub const EDGE_COUNT: usize = 12;

/// A point of the cube's own, unrotated space.
#[derive(Clone, Copy, Debug, PartialEq, Eq, Structural)]
pub struct Point3 {
    pub x: i32,
    pub y: i32,
    pub z: i32,
}

/// The corner with the given number, for numbers below `VERTEX_COUNT`.
pub open spec fn corner(index: int) -> Point3 {
    let w: i32 = CUBE_WIDTH;
    let m: i32 = (-CUBE_WIDTH) as i32;
    if index == 0 {
        Point3 { x: m, y: m, z: m }
    } else if index == 1 {
        Point3 { x: w, y: m, z: m }
    } else if index == 2 {
        Point3 { x: w, y: w, z: m }
    } else if index == 3 {
        Point3 { x: m, y: w, z: m }
    } else if index == 4 {
        Point3 { x: m, y: m, z: w }
    } else if index == 5 {
        Point3 { x: w, y: m, z: w }
    } else if index == 6 {
        Point3 { x: w, y: w, z: w }
    } else {
        Point3 { x: m, y: w, z: w }
    }
}

/// The numbers of the two corners that the edge with the given number
/// joins, for numbers below `EDGE_COUNT`: four edges round the lower face,
/// four round the upper face, then the four that join the faces.
pub open spec fn edge_ends(index: int) -> (int, int) {
    if index == 0 {
        (0, 1)
    } else if index == 1 {
        (1, 2)
    } else if index == 2 {
        (2, 3)
    } else if index == 3 {
        (3, 0)
    } else if index == 4 {
        (4, 5)
    } else if index == 5 {
        (5, 6)
    } else if index == 6 {
        (6, 7)
    } else if index == 7 {
        (7, 4)
    } else if index == 8 {
        (0, 4)
    } else if index == 9 {
        (1, 5)
    } else if index == 10 {
        (2, 6)
    } else {
        (3, 7)
    }
}

/// Whether the edge with the given number ends in the given corner.
pub open spec fn touches(edge: int, vertex: int) -> bool {
    edge_ends(edge).0 == vertex || edge_ends(edge).1 == vertex
}

/// Whether the edge with the given number joins the two given corners, in
/// either direction.
pub open spec fn joins(edge: int, first: int, second: int) -> bool {
    edge_ends(edge) == (first, second) || edge_ends(edge) == (second, first)
}

/// How many of the edges with a number below `limit` end in the corner.
pub open spec fn touching_below(vertex: int, limit: int) -> int
    decreases limit,
{
    if limit <= 0 {
        0
    } else {
        touching_below(vertex, limit - 1) + if touches(limit - 1, vertex) {
            1int
        } else {
            0int
        }
    }
}

/// How many edges end in the corner.
pub open spec fn degree(vertex: int) -> int {
    touching_below(vertex, EDGE_COUNT as int)
}

/// In how many coordinates two points differ.
pub open spec fn differing_coordinates(p: Point3, q: Point3) -> int {
    (if p.x != q.x { 1int } else { 0int })
        + (if p.y != q.y { 1int } else { 0int })
        + (if p.z != q.z { 1int } else { 0int })
}

/// The corners in the order of their numbers.
pub open spec fn cube_vertices() -> Seq<Point3> {
    Seq::new(VERTEX_COUNT as nat, |i: int| corner(i))
}

/// The edges in the order of their numbers.
pub open spec fn cube_edges() -> Seq<(usize, usize)> {
    Seq::new(EDGE_COUNT as nat, |i: int| (edge_ends(i).0 as usize, edge_ends(i).1 as usize))
}

/// The corner with the given number.
pub fn vertex(index: usize) -> (point: Point3)
    requires
        index < VERTEX_COUNT,
    ensures
        point == corner(index as int),
{
    let w: i32 = CUBE_WIDTH;
    let m: i32 = -CUBE_WIDTH;
    let x: i32 = if index == 1 || index == 2 || index == 5 || index == 6 {
        w
    } else {
        m
    };
    let y: i32 = if index == 2 || index == 3 || index == 6 || index == 7 {
        w
    } else {
        m
    };
    let z: i32 = if index >= 4 {
        w
    } else {
        m
    };
    Point3 { x, y, z }
}

/// The numbers of the two corners that the edge with the given number joins.
pub fn edge(index: usize) -> (ends: (usize, usize))
    requires
        index < EDGE_COUNT,
    ensures
        ends.0 == edge_ends(index as int).0,
        ends.1 == edge_ends(index as int).1,
        ends.0 < VERTEX_COUNT,
        ends.1 < VERTEX_COUNT,
{
    if index < 4 {
        (index, (index + 1) % 4)
    } else if index < 8 {
        (index, 4 + (index + 1) % 4)
    } else {
        (index - 8, index - 4)
    }
}

/// All corners, in the order of their numbers.
pub fn vertices() -> (points: Vec<Point3>)
    ensures
        points@ == cube_vertices(),
{
    let mut points: Vec<Point3> = Vec::new();
    let mut index: usize = 0;
    while index < VERTEX_COUNT
        invariant
            index <= VERTEX_COUNT,
            points.len() == index,
            forall|i: int| 0 <= i < index ==> points[i] == corner(i),
        decreases VERTEX_COUNT - index,
    {
        points.push(vertex(index));
        index += 1;
    }
    assert(points@ =~= cube_vertices());
    points
}

/// All edges, in the order of their numbers.
pub fn edges() -> (pairs: Vec<(usize, usize)>)
    ensures
        pairs@ == cube_edges(),
{
    let mut pairs: Vec<(usize, usize)> = Vec::new();
    let mut index: usize = 0;
    while index < EDGE_COUNT
        invariant
            index <= EDGE_COUNT,
            pairs.len() == index,
            forall|i: int| 0 <= i < index ==> pairs[i] == cube_edges()[i],
        decreases EDGE_COUNT - index,
    {
        pairs.push(edge(index));
        index += 1;
    }
    assert(pairs@ =~= cube_edges());
    pairs
}

/// The corners are the eight points whose coordinates are each
/// `CUBE_WIDTH` or its negation: every such point is a corner, and no two
/// numbers name the same one.
pub proof fn lemma_corners_are_the_sign_choices(i: int, j: int, p: Point3)
    requires
        0 <= i < VERTEX_COUNT,
        0 <= j < VERTEX_COUNT,
        p.x == CUBE_WIDTH || p.x == -CUBE_WIDTH,
        p.y == CUBE_WIDTH || p.y == -CUBE_WIDTH,
        p.z == CUBE_WIDTH || p.z == -CUBE_WIDTH,
    ensures
        corner(i).x == CUBE_WIDTH || corner(i).x == -CUBE_WIDTH,
        corner(i).y == CUBE_WIDTH || corner(i).y == -CUBE_WIDTH,
        corner(i).z == CUBE_WIDTH || corner(i).z == -CUBE_WIDTH,
        corner(i) == corner(j) ==> i == j,
        exists|k: int| 0 <= k < VERTEX_COUNT && #[trigger] corner(k) == p,
{
    let k: int = if p.z == -CUBE_WIDTH {
        if p.y == -CUBE_WIDTH {
            if p.x == -CUBE_WIDTH { 0 } else { 1 }
        } else {
            if p.x == -CUBE_WIDTH { 3 } else { 2 }
        }
    } else {
        if p.y == -CUBE_WIDTH {
            if p.x == -CUBE_WIDTH { 4 } else { 5 }
        } else {
            if p.x == -CUBE_WIDTH { 7 } else { 6 }
        }
    };
    assert(corner(k) == p);
}

/// Every edge joins two corners of the cube that differ in exactly one
/// coordinate, and so runs along one axis.
pub proof fn lemma_edges_join_neighbours(e: int)
    requires
        0 <= e < EDGE_COUNT,
    ensures
        0 <= edge_ends(e).0 < VERTEX_COUNT,
        0 <= edge_ends(e).1 < VERTEX_COUNT,
        differing_coordinates(corner(edge_ends(e).0), corner(edge_ends(e).1)) == 1,
{
}

/// No two edges join the same pair of corners, in whichever direction.
pub proof fn lemma_edges_are_distinct(e: int, f: int)
    requires
        0 <= e < EDGE_COUNT,
        0 <= f < EDGE_COUNT,
        e != f,
    ensures
        !joins(f, edge_ends(e).0, edge_ends(e).1),
{
}

/// Every pair of corners that differ in exactly one coordinate is joined by
/// an edge: together with the two laws above, the twelve edges are exactly
/// the edges of the cube.
pub proof fn lemma_neighbours_are_joined(u: int, v: int)
    requires
        0 <= u < VERTEX_COUNT,
        0 <= v < VERTEX_COUNT,
        differing_coordinates(corner(u), corner(v)) == 1,
    ensures
        exists|e: int| 0 <= e < EDGE_COUNT && #[trigger] joins(e, u, v),
{
    let low: int = if u < v { u } else { v };
    let high: int = if u < v { v } else { u };
    let e: int = if high - low == 4 {
        8 + low
    } else if low < 4 {
        if high - low == 1 { low } else { 3 }
    } else {
        if high - low == 1 { low } else { 7 }
    };
    assert(joins(e, u, v));
}

/// The cube has eight corners and twelve edges, and every corner is the end
/// of exactly three of the edges.
pub proof fn lemma_three_edges_meet_in_each_corner(v: int)
    requires
        0 <= v < VERTEX_COUNT,
    ensures
        cube_vertices().len() == 8,
        cube_edges().len() == 12,
        degree(v) == 3,
{
    reveal_with_fuel(touching_below, 13);
}

} // verus!

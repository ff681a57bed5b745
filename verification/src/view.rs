//! What the two ways of drawing a polygon work out before anything is
//! painted.
use vstd::prelude::*;
use crate::arc::{compute_arc_geometry, is_arc_geometry};
use crate::point::Point;
use crate::polygon::Polygon;
use crate::scalar::Scalar;

verus! {

/// Which drawer paints the polygon.
#[derive(Clone, Copy, PartialEq, Eq, Structural, Debug)]
pub enum DrawMode {
    /// Lines and curves as the graphics library draws them.
    Library,
    /// Straight edges pixel by pixel.
    Bresenham,
}

/// The points that give an arc on edge `i` its tangents when the polygon is
/// drawn: the vertex before the edge's start, none for edge 0, and the vertex
/// after its end, none for the last two edges.
pub fn arc_tangents<S: Scalar>(polygon: &Polygon<S>, i: usize) -> (tangents: (
    Option<Point<S>>,
    Option<Point<S>>,
))
    requires
        i < polygon.vertices.len(),
    ensures
        tangents.0 == (if i == 0 {
            None
        } else {
            Some(polygon@.vertices[i - 1])
        }),
        tangents.1 == (if i + 2 < polygon@.vertices.len() {
            Some(polygon@.vertices[i + 2])
        } else {
            None
        }),
{
    let n: usize = polygon.vertices.len();
    let prev = if i == 0 {
        None
    } else {
        Some(polygon.vertices[i - 1])
    };
    let next = if i + 1 < n - 1 {
        Some(polygon.vertices[i + 2])
    } else {
        None
    };
    (prev, next)
}

/// The drawer that leaves lines to the graphics library.
pub struct PolygonDrawer;

impl PolygonDrawer {
    pub fn new() -> (drawer: Self) {
        PolygonDrawer
    }

    /// Centre and radius of the arc to draw: see
    /// [`compute_arc_geometry`](crate::arc::compute_arc_geometry).
    pub fn compute_arc_geometry<S: Scalar>(
        start: Point<S>,
        end: Point<S>,
        tangent_start: Option<Point<S>>,
        tangent_end: Option<Point<S>>,
        g1_start: bool,
        g1_end: bool,
    ) -> (arc: (Point<S>, S))
        ensures
            arc.0.is_plain(),
            is_arc_geometry(start, end, tangent_start, tangent_end, g1_start, g1_end, arc),
    {
        compute_arc_geometry(start, end, tangent_start, tangent_end, g1_start, g1_end)
    }
}

/// The drawer that sets straight edges pixel by pixel.
pub struct MyPolygonDrawer;

impl MyPolygonDrawer {
    pub fn new() -> (drawer: Self) {
        MyPolygonDrawer
    }

    /// Centre and radius of the arc to draw: see
    /// [`compute_arc_geometry`](crate::arc::compute_arc_geometry).
    pub fn compute_arc_geometry<S: Scalar>(
        start: Point<S>,
        end: Point<S>,
        tangent_start: Option<Point<S>>,
        tangent_end: Option<Point<S>>,
        g1_start: bool,
        g1_end: bool,
    ) -> (arc: (Point<S>, S))
        ensures
            arc.0.is_plain(),
            is_arc_geometry(start, end, tangent_start, tangent_end, g1_start, g1_end, arc),
    {
        compute_arc_geometry(start, end, tangent_start, tangent_end, g1_start, g1_end)
    }
}

} // verus!

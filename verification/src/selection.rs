//! What the pointer has hold of: a vertex, or a control point of a curve.
use vstd::prelude::*;
use crate::constraint::ConstraintType;
use crate::point::{is_distance, Continuity, Point, PointRole};
use crate::polygon::{ring_next, Polygon};
use crate::relation::{
    finds_less, is_advance, is_clamped, is_difference, is_integer, is_product, is_quotient, is_sum,
    is_zero,
};
use crate::scalar::{zero, Scalar};

verus! {

/// The current selection. A control point is named by the edge of its curve
/// and by 1 or 2.
pub struct Selection {
    pub selected_vertex: Option<usize>,
    pub selected_control: Option<(usize, u8)>,
}

/// The distance from `p` to the segment from `a` to `b`: to the foot of the
/// perpendicular where that falls on the segment, to the nearer end otherwise.
pub fn distance_point_to_segment<S: Scalar>(p: &Point<S>, a: &Point<S>, b: &Point<S>) -> (r: S)
    ensures
        is_segment_distance(*p, *a, *b, r),
{
    let ap = Point::new(p.x.minus(a.x), p.y.minus(a.y));
    let ab = Point::new(b.x.minus(a.x), b.y.minus(a.y));
    let ab2 = ab.x.times(ab.x).plus(ab.y.times(ab.y));
    let dot = ap.x.times(ab.x).plus(ap.y.times(ab.y));
    let t = dot.over(ab2).clamp(zero(), S::from_int(1));
    let closest = Point::new(a.x.plus(ab.x.times(t)), a.y.plus(ab.y.times(t)));
    let r = closest.distance(p);
    proof {
        assert(is_dot(ab.x, ab.y, ab.x, ab.y, ab2));
        assert(is_dot(ap.x, ap.y, ab.x, ab.y, dot));
        assert(is_foot_parameter(ap.x, ap.y, ab.x, ab.y, t));
        assert(is_advance(a.x, ab.x, t, closest.x));
        assert(is_advance(a.y, ab.y, t, closest.y));
        assert(closest == plain_at(closest.x, closest.y));
    }
    r
}

/// The first vertex of `polygon` closer to `target` than `radius`.
pub fn first_vertex_within<S: Scalar>(polygon: &Polygon<S>, target: &Point<S>, radius: S) -> (hit:
    Option<usize>)
    ensures
        hit matches Some(idx) ==> idx < polygon@.vertices.len(),
        is_first_within(polygon@.vertices, *target, radius, hit),
{
    let mut i: usize = 0;
    while i < polygon.vertices.len()
        invariant
            i <= polygon.vertices.len(),
            forall|k: int|
                0 <= k < i ==> finds_within(#[trigger] polygon@.vertices[k], *target, radius, false),
        decreases polygon.vertices.len() - i,
    {
        let near = polygon.vertices[i].distance(target).less(radius);
        assert(finds_within(polygon@.vertices[i as int], *target, radius, near));
        if near {
            return Some(i);
        }
        i += 1;
    }
    None
}

/// The first control point of a curve of `polygon` closer to `target` than
/// `radius`: curves in slot order, the first control point before the second.
pub fn first_control_within<S: Scalar>(polygon: &Polygon<S>, target: &Point<S>, radius: S) -> (hit:
    Option<(usize, u8)>)
    ensures
        hit matches Some(found) ==> polygon@.curve_at(found.0 as int) && (found.1 == 1 || found.1
            == 2),
        is_first_control_within(polygon@.constraints, *target, radius, hit),
{
    let mut i: usize = 0;
    while i < polygon.constraints.len()
        invariant
            i <= polygon.constraints.len(),
            forall|k: int|
                0 <= k < i ==> misses_controls(#[trigger] polygon@.constraints[k], *target, radius),
        decreases polygon.constraints.len() - i,
    {
        match polygon.constraints[i] {
            Some(ConstraintType::Bezier { control1, control2, .. }) => {
                let near1 = control1.distance(target).less(radius);
                assert(finds_within(control1, *target, radius, near1));
                if near1 {
                    return Some((i, 1));
                }
                let near2 = control2.distance(target).less(radius);
                assert(finds_within(control2, *target, radius, near2));
                if near2 {
                    return Some((i, 2));
                }
            },
            _ => {},
        }
        i += 1;
    }
    None
}

impl Selection {
    /// The selection once the search for a vertex came to `vertex_hit` and,
    /// without one, the search for a control point to `control_hit`: a vertex
    /// that was hit is selected and the control point stays as it was; without
    /// one, no vertex is selected and the control point is what was hit.
    pub open spec fn settled(
        self,
        vertex_hit: Option<usize>,
        control_hit: Option<(usize, u8)>,
    ) -> Selection {
        match vertex_hit {
            Some(idx) => Selection { selected_vertex: Some(idx), ..self },
            None => Selection { selected_vertex: None, selected_control: control_hit },
        }
    }

    /// The empty selection.
    pub fn new() -> (s: Self)
        ensures
            s.selected_vertex is None,
            s.selected_control is None,
    {
        Selection { selected_vertex: None, selected_control: None }
    }

    /// Records the outcome of a search: see [`Selection::settled`]. Returns
    /// the vertex that was hit.
    pub fn settle(&mut self, vertex_hit: Option<usize>, control_hit: Option<(usize, u8)>) -> (hit:
        Option<usize>)
        ensures
            *final(self) == old(self).settled(vertex_hit, control_hit),
            hit == vertex_hit,
    {
        match vertex_hit {
            Some(idx) => {
                self.selected_vertex = Some(idx);
            },
            None => {
                self.selected_vertex = None;
                self.selected_control = control_hit;
            },
        }
        vertex_hit
    }

    /// Selects what lies within `radius` of `mouse_pos`: the first such
    /// vertex, which is returned, or else the first such control point of a
    /// curve, or else nothing.
    pub fn select_vertex<S: Scalar>(
        &mut self,
        polygon: &Polygon<S>,
        mouse_pos: Point<S>,
        radius: S,
    ) -> (hit: Option<usize>)
        ensures
            *final(self) == old(self).settled(hit, final(self).selected_control),
            is_first_within(polygon@.vertices, mouse_pos, radius, hit),
            hit is None ==> is_first_control_within(
                polygon@.constraints,
                mouse_pos,
                radius,
                final(self).selected_control,
            ),
            hit matches Some(idx) ==> idx < polygon@.vertices.len(),
            hit is None ==> (final(self).selected_control matches Some(found) ==> polygon@.curve_at(
                found.0 as int,
            ) && (found.1 == 1 || found.1 == 2)),
    {
        let vertex_hit = first_vertex_within(polygon, &mouse_pos, radius);
        let control_hit = match vertex_hit {
            Some(_) => None,
            None => first_control_within(polygon, &mouse_pos, radius),
        };
        self.settle(vertex_hit, control_hit)
    }

    /// The edge nearest to `mouse` among those closer than `radius`; of
    /// several at the same distance, the first. None below two vertices.
    pub fn select_edge<S: Scalar>(&self, polygon: &Polygon<S>, mouse: &Point<S>, radius: S) -> (hit:
        Option<usize>)
        ensures
            hit matches Some(idx) ==> idx < polygon@.vertices.len(),
            polygon@.vertices.len() < 2 ==> hit is None,
            polygon@.vertices.len() >= 2 ==> is_nearest_edge(
                polygon@.vertices,
                *mouse,
                radius,
                hit,
            ),
    {
        let mut closest: Option<usize> = None;
        let mut min_dist = radius;
        let n: usize = polygon.vertices.len();
        if n < 2 {
            return None;
        }
        let ghost mut leasts: Seq<S> = seq![radius];
        let ghost mut leaders: Seq<Option<usize>> = seq![None];
        let mut i: usize = 0;
        while i < n
            invariant
                n == polygon.vertices.len(),
                2 <= n,
                i <= n,
                closest matches Some(idx) ==> idx < n,
                leasts.len() == i + 1,
                leaders.len() == i + 1,
                leasts[0] == radius,
                leaders[0] is None,
                leasts[i as int] == min_dist,
                leaders[i as int] == closest,
                forall|k: int|
                    0 <= k < i ==> takes_lead(
                        polygon@.vertices,
                        *mouse,
                        k,
                        #[trigger] leasts[k],
                        leaders[k],
                        leasts[k + 1],
                        leaders[k + 1],
                    ),
            decreases n - i,
        {
            let start = polygon.vertices[i];
            let end = polygon.vertices[(i + 1) % n];
            let dist = distance_point_to_segment(mouse, &start, &end);
            let ghost before = min_dist;
            let ghost leader = closest;
            let closer = dist.less(min_dist);
            if closer {
                min_dist = dist;
                closest = Some(i);
            }
            proof {
                assert(finds_closer(dist, before, closer));
                assert(takes_lead(
                    polygon@.vertices,
                    *mouse,
                    i as int,
                    before,
                    leader,
                    min_dist,
                    closest,
                ));
                leasts = leasts.push(min_dist);
                leaders = leaders.push(closest);
            }
            i += 1;
        }
        assert(is_edge_scan(polygon@.vertices, *mouse, radius, leasts, leaders));
        assert(leaders.last() == closest);
        closest
    }
}

/// The plain vertex at `(x, y)`.
pub open spec fn plain_at<S: Scalar>(x: S, y: S) -> Point<S> {
    Point { x, y, role: PointRole::Vertex, continuity: Continuity::Unset }
}

/// `r` may be the dot product of `(ux, uy)` and `(vx, vy)`.
pub open spec fn is_dot<S: Scalar>(ux: S, uy: S, vx: S, vy: S, r: S) -> bool {
    exists|m: S, n: S| is_product(ux, vx, m) && is_product(uy, vy, n) && is_sum(m, n, r)
}

/// `t` may be where, along the vector `(abx, aby)`, the foot of the
/// perpendicular from the tip of `(apx, apy)` falls: the dot product of the
/// two over the dot product of the first with itself, held between zero and
/// one.
pub open spec fn is_foot_parameter<S: Scalar>(apx: S, apy: S, abx: S, aby: S, t: S) -> bool {
    exists|ab2: S, dot: S, q: S, zero: S, one: S|
        is_dot(abx, aby, abx, aby, ab2) && is_dot(apx, apy, abx, aby, dot) && is_quotient(
            dot,
            ab2,
            q,
        ) && is_zero(zero) && is_integer(1, one) && is_clamped(q, zero, one, t)
}

/// `r` may be the distance from `p` to the segment from `a` to `b`: the
/// distance from `p` to the point that lies the foot parameter along the
/// segment.
pub open spec fn is_segment_distance<S: Scalar>(p: Point<S>, a: Point<S>, b: Point<S>, r: S) -> bool {
    exists|apx: S, apy: S, abx: S, aby: S, t: S, cx: S, cy: S|
        is_difference(p.x, a.x, apx) && is_difference(p.y, a.y, apy) && is_difference(
            b.x,
            a.x,
            abx,
        ) && is_difference(b.y, a.y, aby) && is_foot_parameter(apx, apy, abx, aby, t)
            && is_advance(a.x, abx, t, cx) && is_advance(a.y, aby, t, cy) && is_distance(
            plain_at(cx, cy),
            p,
            r,
        )
}

/// The comparison of the distance between `p` and `target` with `radius`
/// may come out as `verdict`: true for closer.
pub open spec fn finds_within<S: Scalar>(p: Point<S>, target: Point<S>, radius: S, verdict: bool) -> bool {
    exists|d: S| is_distance(p, target, d) && finds_less(d, radius, verdict)
}

/// `hit` may be what the search for the first of `points` within `radius` of
/// `target` comes to: every point before the hit was found no closer than
/// `radius` and the hit was found closer; without a hit, none was found closer.
pub open spec fn is_first_within<S: Scalar>(
    points: Seq<Point<S>>,
    target: Point<S>,
    radius: S,
    hit: Option<usize>,
) -> bool {
    match hit {
        Some(idx) => {
            &&& idx < points.len()
            &&& finds_within(points[idx as int], target, radius, true)
            &&& forall|k: int|
                0 <= k < idx ==> finds_within(#[trigger] points[k], target, radius, false)
        },
        None => forall|k: int|
            0 <= k < points.len() ==> finds_within(#[trigger] points[k], target, radius, false),
    }
}

/// Neither control point of the curve in `slot`, if it holds one, was found
/// closer to `target` than `radius`.
pub open spec fn misses_controls<S: Scalar>(
    slot: Option<ConstraintType<S>>,
    target: Point<S>,
    radius: S,
) -> bool {
    match slot {
        Some(ConstraintType::Bezier { control1, control2, .. }) => finds_within(
            control1,
            target,
            radius,
            false,
        ) && finds_within(control2, target, radius, false),
        _ => true,
    }
}

/// Control point `id` of the curve in `slot` is the first of its two that was
/// found closer to `target` than `radius`.
pub open spec fn hits_control<S: Scalar>(
    slot: Option<ConstraintType<S>>,
    target: Point<S>,
    radius: S,
    id: u8,
) -> bool {
    match slot {
        Some(ConstraintType::Bezier { control1, control2, .. }) => if id == 1 {
            finds_within(control1, target, radius, true)
        } else {
            id == 2 && finds_within(control1, target, radius, false) && finds_within(
                control2,
                target,
                radius,
                true,
            )
        },
        _ => false,
    }
}

/// `hit` may be what the search for the first control point within `radius`
/// of `target` comes to: every curve before the hit missed with both control
/// points, and the hit names the first control point of its curve that was
/// found closer; without a hit, every curve missed.
pub open spec fn is_first_control_within<S: Scalar>(
    slots: Seq<Option<ConstraintType<S>>>,
    target: Point<S>,
    radius: S,
    hit: Option<(usize, u8)>,
) -> bool {
    match hit {
        Some(found) => {
            &&& found.0 < slots.len()
            &&& hits_control(slots[found.0 as int], target, radius, found.1)
            &&& forall|k: int|
                0 <= k < found.0 ==> misses_controls(#[trigger] slots[k], target, radius)
        },
        None => forall|k: int|
            0 <= k < slots.len() ==> misses_controls(#[trigger] slots[k], target, radius),
    }
}

/// The comparison of the distance `d` with the least so far may come out as
/// `verdict`: true for less.
pub open spec fn finds_closer<S: Scalar>(d: S, least: S, verdict: bool) -> bool {
    finds_less(d, least, verdict)
}

/// Edge `i` of the ring on `vertices` was measured against `mouse` while the
/// least distance so far was `before` and its edge `leader`: the lead passes
/// to edge `i`, with its distance, where that distance is found less than
/// `before`, and stays where it was otherwise.
pub open spec fn takes_lead<S: Scalar>(
    vertices: Seq<Point<S>>,
    mouse: Point<S>,
    i: int,
    before: S,
    leader: Option<usize>,
    least: S,
    best: Option<usize>,
) -> bool {
    exists|d: S, closer: bool|
        is_segment_distance(
            mouse,
            vertices[i],
            vertices[ring_next(i, vertices.len() as int)],
            d,
        ) && #[trigger] finds_closer(d, before, closer) && least == (if closer {
            d
        } else {
            before
        }) && best == (if closer {
            Some(i as usize)
        } else {
            leader
        })
}

/// `leasts` and `leaders` record a search for the nearest edge: before any
/// edge is measured the least distance is `radius` and no edge leads, and
/// each edge in turn takes the lead or leaves it.
pub open spec fn is_edge_scan<S: Scalar>(
    vertices: Seq<Point<S>>,
    mouse: Point<S>,
    radius: S,
    leasts: Seq<S>,
    leaders: Seq<Option<usize>>,
) -> bool {
    &&& leasts.len() == vertices.len() + 1
    &&& leaders.len() == vertices.len() + 1
    &&& leasts[0] == radius
    &&& leaders[0] is None
    &&& forall|i: int|
        0 <= i < vertices.len() ==> takes_lead(
            vertices,
            mouse,
            i,
            #[trigger] leasts[i],
            leaders[i],
            leasts[i + 1],
            leaders[i + 1],
        )
}

/// `hit` may be what the search for the edge nearest to `mouse` within
/// `radius` comes to: the edge that leads once every edge was measured.
pub open spec fn is_nearest_edge<S: Scalar>(
    vertices: Seq<Point<S>>,
    mouse: Point<S>,
    radius: S,
    hit: Option<usize>,
) -> bool {
    exists|leasts: Seq<S>, leaders: Seq<Option<usize>>| #[trigger]
        is_edge_scan(vertices, mouse, radius, leasts, leaders) && leaders.last() == hit
}

} // verus!

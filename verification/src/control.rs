//! Continuity in the other direction: after a control point of a curve was
//! dragged, the vertex beyond the curve's end follows it.
use vstd::prelude::*;
use crate::constraint::ConstraintType;
use crate::point::{is_distance, Continuity, Point};
use crate::polygon::{ring_next, ring_prev, Polygon, PolygonModel};
use crate::relation::{
    is_difference, is_integer, is_larger, is_millionth, is_norm, is_quotient, is_retreat,
};
use crate::scalar::{millionth, norm, Scalar};

verus! {

impl<S: Scalar> PolygonModel<S> {
    /// The vertex at which control point `control_id` of the curve on edge
    /// `edge` is anchored: the edge's start for the first control point, its
    /// end for the second.
    pub open spec fn anchor_of(self, edge: int, control_id: u8) -> int {
        if control_id == 1 {
            edge
        } else {
            ring_next(edge, self.vertices.len() as int)
        }
    }

    /// The vertex that follows a drag of control point `control_id` of the
    /// curve on edge `edge`: the one before the edge's start for the first
    /// control point, the one after its end for the second.
    pub open spec fn follower_of(self, edge: int, control_id: u8) -> int {
        let n = self.vertices.len() as int;
        if control_id == 1 {
            ring_prev(edge, n)
        } else {
            ring_next(ring_next(edge, n), n)
        }
    }

    /// A drag of control point `control_id` on edge `edge` moves a vertex: the
    /// slot holds a curve, the control point is its first or second, and the
    /// anchor's continuity is `G1` or `C1`.
    pub open spec fn drag_moves_vertex(self, edge: int, control_id: u8) -> bool {
        let cont = self.vertices[self.anchor_of(edge, control_id)].continuity;
        &&& self.curve_at(edge)
        &&& control_id == 1 || control_id == 2
        &&& cont == Continuity::G1 || cont == Continuity::C1
    }

    /// The control point `control_id` of the curve in slot `edge`.
    pub open spec fn control_of(self, edge: int, control_id: u8) -> Point<S> {
        match self.slot(edge) {
            Some(ConstraintType::Bezier { control1, control2, .. }) => if control_id == 1 {
                control1
            } else {
                control2
            },
            _ => arbitrary(),
        }
    }

    /// `post` is what a drag of control point `control_id` on edge `edge` can
    /// make of `self`: where the drag moves a vertex, the follower at the place
    /// that follows the control point about its anchor; `self` otherwise.
    pub open spec fn after_control_move(self, post: Self, edge: int, control_id: u8) -> bool {
        if self.drag_moves_vertex(edge, control_id) {
            let anchor = self.vertices[self.anchor_of(edge, control_id)];
            let follower = self.follower_of(edge, control_id);
            exists|x: S, y: S|
                is_follow_place(
                    anchor.continuity,
                    anchor,
                    self.control_of(edge, control_id),
                    self.vertices[follower],
                    Some((x, y)),
                ) && post == #[trigger] self.with_vertex_at(follower, x, y)
        } else {
            post == self
        }
    }
}

/// `length` may be the length of `(dx, dy)`, held at a millionth or above.
pub open spec fn is_held_norm<S: Scalar>(dx: S, dy: S, tiny: S, length: S) -> bool {
    exists|len: S| is_norm(dx, dy, len) && is_larger(len, tiny, length)
}

/// `reach` may be the distance between `p` and `q`, held at a millionth or
/// above.
pub open spec fn is_held_distance<S: Scalar>(p: Point<S>, q: Point<S>, tiny: S, reach: S) -> bool {
    exists|gap: S| is_distance(p, q, gap) && is_larger(gap, tiny, reach)
}

/// `(x, y)` may be the `G1` place of the vertex beyond `anchor`: as far from
/// the anchor as `neighbour` is, against the direction from the anchor to
/// `control`.
pub open spec fn is_g1_follow<S: Scalar>(
    anchor: Point<S>,
    control: Point<S>,
    neighbour: Point<S>,
    x: S,
    y: S,
) -> bool {
    exists|dx: S, dy: S, tiny: S, length: S, ux: S, uy: S, reach: S|
        is_difference(control.x, anchor.x, dx) && is_difference(control.y, anchor.y, dy)
            && is_millionth(tiny) && #[trigger] is_held_norm(dx, dy, tiny, length) && is_quotient(
            dx,
            length,
            ux,
        ) && is_quotient(dy, length, uy) && is_held_distance(neighbour, anchor, tiny, reach)
            && #[trigger] is_retreat(anchor.x, ux, reach, x) && #[trigger] is_retreat(
            anchor.y,
            uy,
            reach,
            y,
        )
}

/// `(x, y)` may be the `C1` place of the vertex beyond `anchor`: the anchor
/// less three times the vector from the anchor to `control`.
pub open spec fn is_c1_follow<S: Scalar>(anchor: Point<S>, control: Point<S>, x: S, y: S) -> bool {
    exists|dx: S, dy: S, three: S|
        is_difference(control.x, anchor.x, dx) && is_difference(control.y, anchor.y, dy)
            && is_integer(3, three) && #[trigger] is_retreat(anchor.x, dx, three, x)
            && #[trigger] is_retreat(anchor.y, dy, three, y)
}

/// `place` may be where the vertex beyond `anchor` goes after the handle
/// `control` at `anchor` was dragged: its `G1` or its `C1` place for those
/// classes, none for the others.
pub open spec fn is_follow_place<S: Scalar>(
    cont: Continuity,
    anchor: Point<S>,
    control: Point<S>,
    neighbour: Point<S>,
    place: Option<(S, S)>,
) -> bool {
    match cont {
        Continuity::G1 => place matches Some(at) && is_g1_follow(
            anchor,
            control,
            neighbour,
            at.0,
            at.1,
        ),
        Continuity::C1 => place matches Some(at) && is_c1_follow(anchor, control, at.0, at.1),
        _ => place is None,
    }
}

impl<S: Scalar> Polygon<S> {
    /// Where the vertex beyond `anchor` goes after the handle `control` at
    /// `anchor` was dragged, `neighbour` being that vertex as it stands. For
    /// `G1` the vertex keeps its distance from the anchor and lines up with the
    /// handle, on the far side; for `C1` it sits three handle lengths away, on
    /// the far side. None for the other classes.
    pub fn follow_control(
        cont: Continuity,
        anchor: Point<S>,
        control: Point<S>,
        neighbour: Point<S>,
    ) -> (place: Option<(S, S)>)
        ensures
            place is Some <==> cont == Continuity::G1 || cont == Continuity::C1,
            is_follow_place(cont, anchor, control, neighbour, place),
    {
        match cont {
            Continuity::G1 => {
                let dx = control.x.minus(anchor.x);
                let dy = control.y.minus(anchor.y);
                let tiny: S = millionth();
                let length = norm(dx, dy).max(tiny);
                assert(is_held_norm(dx, dy, tiny, length));
                let ux = dx.over(length);
                let uy = dy.over(length);
                let reach = neighbour.distance(&anchor).max(tiny);
                assert(is_held_distance(neighbour, anchor, tiny, reach));
                let x = anchor.x.minus(ux.times(reach));
                let y = anchor.y.minus(uy.times(reach));
                assert(is_retreat(anchor.x, ux, reach, x));
                assert(is_retreat(anchor.y, uy, reach, y));
                assert(is_g1_follow(anchor, control, neighbour, x, y));
                Some((x, y))
            },
            Continuity::C1 => {
                let dx = control.x.minus(anchor.x);
                let dy = control.y.minus(anchor.y);
                let three: S = S::from_int(3);
                let x = anchor.x.minus(dx.times(three));
                let y = anchor.y.minus(dy.times(three));
                assert(is_retreat(anchor.x, dx, three, x));
                assert(is_retreat(anchor.y, dy, three, y));
                assert(is_c1_follow(anchor, control, x, y));
                Some((x, y))
            },
            _ => None,
        }
    }

    /// Lets the polygon follow a drag of control point `control_id` (1 or 2)
    /// of the curve on edge `constraint_index`. Nothing happens where the slot
    /// holds no curve, for another `control_id`, or where the anchor's
    /// continuity is neither `G1` nor `C1`.
    pub fn enforce_continuity_after_control_move(&mut self, constraint_index: usize, control_id: u8)
        requires
            constraint_index < old(self).constraints.len(),
            old(self)@.curve_at(constraint_index as int) ==> old(self).vertices.len() > 0,
            old(self)@.curve_at(constraint_index as int) && control_id == 1 ==> constraint_index
                < old(self).vertices.len(),
        ensures
            old(self)@.after_control_move(final(self)@, constraint_index as int, control_id),
    {
        match self.constraints[constraint_index] {
            Some(ConstraintType::Bezier { control1, control2, .. }) => {
                let n: usize = self.vertices.len();
                let start_idx: usize = constraint_index;
                let end_idx: usize = (constraint_index + 1) % n;
                let ghost pre = self@;
                if control_id == 1 {
                    let v_start = self.vertices[start_idx];
                    let prev_idx: usize = if start_idx == 0 {
                        n - 1
                    } else {
                        start_idx - 1
                    };
                    let prev = self.vertices[prev_idx];
                    match Self::follow_control(v_start.continuity, v_start, control1, prev) {
                        Some((x, y)) => {
                            self.place_vertex(prev_idx, x, y);
                            assert(self@ == pre.with_vertex_at(
                                pre.follower_of(constraint_index as int, control_id),
                                x,
                                y,
                            ));
                        },
                        None => {},
                    }
                } else if control_id == 2 {
                    let v_end = self.vertices[end_idx];
                    let next_idx: usize = (end_idx + 1) % n;
                    let next = self.vertices[next_idx];
                    match Self::follow_control(v_end.continuity, v_end, control2, next) {
                        Some((x, y)) => {
                            self.place_vertex(next_idx, x, y);
                            assert(self@ == pre.with_vertex_at(
                                pre.follower_of(constraint_index as int, control_id),
                                x,
                                y,
                            ));
                        },
                        None => {},
                    }
                }
            },
            _ => {},
        }
    }
}

} // verus!

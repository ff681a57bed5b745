//! Constraint propagation: one pass over the edges in ascending order, each
//! constrained edge corrected on its own from wherever the edges before it
//! left the vertices.
use vstd::prelude::*;
use crate::constraint::ConstraintType;
use crate::point::{is_distance, Continuity, Point, PointRole};
use crate::polygon::{lemma_ring_next, ring_next, ring_prev, Polygon, PolygonModel};
use crate::relation::{
    finds_at_most, finds_less, is_advance, is_difference, is_epsilon, is_halved, is_integer,
    is_mean, is_narrowed, is_norm, is_product, is_quotient, is_root, is_sum, is_two, is_zero,
};
use crate::scalar::{mean, norm, two, zero, Scalar};

verus! {

/// What the enforcement of one constraint writes into the polygon.
#[derive(Copy)]
pub enum Correction<S: Scalar> {
    /// Nothing is written.
    Keep,
    /// Both endpoints take this ordinate.
    LevelY(S),
    /// Both endpoints take this abscissa.
    LevelX(S),
    /// The start vertex moves to `(start_x, start_y)`, the end vertex to
    /// `(end_x, end_y)`.
    Endpoints { start_x: S, start_y: S, end_x: S, end_y: S },
    /// The curve on the edge takes each control point that is given.
    Controls { control1: Option<Point<S>>, control2: Option<Point<S>> },
}

impl<S: Scalar> Clone for Correction<S> {
    fn clone(&self) -> (c: Self)
        ensures
            c == *self,
    {
        *self
    }
}

/// True of a control point placed for a vertex of continuity `cont`.
pub open spec fn placed_for<S: Scalar>(p: Point<S>, cont: Continuity) -> bool {
    p.role == PointRole::Control && p.continuity == cont
}

/// `direction` may be the vector from `neighbour` to `vertex`, and `flat` what
/// the test whether it is too short to give a direction came to: true where
/// its length is found below epsilon.
pub open spec fn is_direction<S: Scalar>(
    vertex: Point<S>,
    neighbour: Point<S>,
    dir_x: S,
    dir_y: S,
    len: S,
    flat: bool,
) -> bool {
    exists|eps: S|
        is_difference(vertex.x, neighbour.x, dir_x) && is_difference(vertex.y, neighbour.y, dir_y)
            && is_norm(dir_x, dir_y, len) && is_epsilon(eps) && finds_less(len, eps, flat)
}

/// `p` may be the `G1` place of the handle `control` at `vertex`: as far from
/// the vertex as the handle is, along the direction `(dir_x, dir_y)` of length
/// `len`.
pub open spec fn is_g1_place<S: Scalar>(
    vertex: Point<S>,
    control: Point<S>,
    dir_x: S,
    dir_y: S,
    len: S,
    p: Point<S>,
) -> bool {
    exists|reach: S, ux: S, uy: S|
        is_distance(control, vertex, reach) && is_quotient(dir_x, len, ux) && is_quotient(
            dir_y,
            len,
            uy,
        ) && is_advance(vertex.x, ux, reach, p.x) && is_advance(vertex.y, uy, reach, p.y)
}

/// `p` may be the `C1` place of a handle at `vertex`: the vertex moved by a
/// third of `(dir_x, dir_y)`.
pub open spec fn is_c1_place<S: Scalar>(vertex: Point<S>, dir_x: S, dir_y: S, p: Point<S>) -> bool {
    exists|three: S, tx: S, ty: S|
        is_integer(3, three) && is_quotient(dir_x, three, tx) && is_quotient(dir_y, three, ty)
            && is_sum(vertex.x, tx, p.x) && is_sum(vertex.y, ty, p.y)
}

/// `placed` may be where the handle `control` of a vertex of continuity
/// `cont` belongs, `neighbour` being the vertex on the far side. For `G1` and
/// `C1` there is none exactly where the direction from the neighbour to the
/// vertex is found too short; else the handle is placed for that class, at its
/// `G1` or its `C1` place. For the other classes there is none.
pub open spec fn is_control_placement<S: Scalar>(
    cont: Continuity,
    vertex: Point<S>,
    neighbour: Point<S>,
    control: Point<S>,
    placed: Option<Point<S>>,
) -> bool {
    match cont {
        Continuity::G1 => exists|dir_x: S, dir_y: S, len: S, flat: bool| #[trigger]
            is_direction(vertex, neighbour, dir_x, dir_y, len, flat) && match placed {
                None => flat,
                Some(p) => !flat && placed_for(p, cont) && is_g1_place(
                    vertex,
                    control,
                    dir_x,
                    dir_y,
                    len,
                    p,
                ),
            },
        Continuity::C1 => exists|dir_x: S, dir_y: S, len: S, flat: bool| #[trigger]
            is_direction(vertex, neighbour, dir_x, dir_y, len, flat) && match placed {
                None => flat,
                Some(p) => !flat && placed_for(p, cont) && is_c1_place(vertex, dir_x, dir_y, p),
            },
        _ => placed is None,
    }
}

/// `sign` may be what stands for the sign of `d`: one where zero is found at
/// most `d`, minus one otherwise.
pub open spec fn is_sign<S: Scalar>(d: S, sign: S) -> bool {
    exists|zero: S, up: bool|
        is_zero(zero) && finds_at_most(zero, d, up) && is_integer(
            if up {
                1i32
            } else {
                -1i32
            },
            sign,
        )
}

/// `offset` may be how far along each axis an end of a diagonal edge of
/// length `len` lies from the midpoint: the length over twice the square root
/// of two.
pub open spec fn is_diagonal_offset<S: Scalar>(len: S, offset: S) -> bool {
    exists|two: S, root: S, denom: S|
        is_two(two) && is_root(two, root) && is_product(two, root, denom) && is_quotient(
            len,
            denom,
            offset,
        )
}

/// The two ends may be the midpoint of `start` and `end` moved back and
/// forth by `(off_x, off_y)`: the start by its difference, the end by its sum.
pub open spec fn is_about_midpoint<S: Scalar>(
    start: Point<S>,
    end: Point<S>,
    off_x: S,
    off_y: S,
    start_x: S,
    start_y: S,
    end_x: S,
    end_y: S,
) -> bool {
    exists|mid_x: S, mid_y: S|
        is_mean(start.x, end.x, mid_x) && is_mean(start.y, end.y, mid_y) && is_difference(
            mid_x,
            off_x,
            start_x,
        ) && is_difference(mid_y, off_y, start_y) && is_sum(mid_x, off_x, end_x) && is_sum(
            mid_y,
            off_y,
            end_y,
        )
}

/// `(dx, dy)` may be the vector from `start` to `end` and `len` its length.
pub open spec fn is_edge_delta<S: Scalar>(start: Point<S>, end: Point<S>, dx: S, dy: S, len: S) -> bool {
    is_difference(end.x, start.x, dx) && is_difference(end.y, start.y, dy) && is_norm(dx, dy, len)
}

/// `correction` may be what `Diagonal45` comes to on the edge from `start`
/// to `end`: nothing exactly where the edge's length is found below epsilon;
/// else both ends about the midpoint, the diagonal offset away on each axis,
/// each axis with the sign of the edge's own delta.
pub open spec fn is_diagonal_correction<S: Scalar>(
    start: Point<S>,
    end: Point<S>,
    correction: Correction<S>,
) -> bool {
    exists|dx: S, dy: S, len: S, eps: S, flat: bool| #[trigger]
        is_edge_delta(start, end, dx, dy, len) && is_epsilon(eps) && #[trigger] finds_short(
            len,
            eps,
            flat,
        ) && match correction {
            Correction::Keep => flat,
            Correction::Endpoints { start_x, start_y, end_x, end_y } => !flat && exists|
                sign_x: S,
                sign_y: S,
                offset: S,
                off_x: S,
                off_y: S,
            |
                is_sign(dx, sign_x) && is_sign(dy, sign_y) && is_diagonal_offset(len, offset)
                    && is_product(offset, sign_x, off_x) && is_product(offset, sign_y, off_y)
                    && is_about_midpoint(
                    start,
                    end,
                    off_x,
                    off_y,
                    start_x,
                    start_y,
                    end_x,
                    end_y,
                ),
            _ => false,
        }
}

/// The comparison of the length `len` with the bound `eps` may come out as
/// `verdict`: true for below.
pub open spec fn finds_short<S: Scalar>(len: S, eps: S, verdict: bool) -> bool {
    finds_less(len, eps, verdict)
}

/// `r` may be half of `d` scaled by `scale`: `d * scale / 2`.
pub open spec fn is_scaled_half<S: Scalar>(d: S, scale: S, r: S) -> bool {
    exists|m: S| is_product(d, scale, m) && is_halved(m, r)
}

/// `scale` may be the factor that brings an edge of length `len` to the
/// length asked for: `wide` rounded to a scalar, over `len`.
pub open spec fn is_length_scale<S: Scalar>(wide: S::Wide, len: S, scale: S) -> bool {
    exists|target: S| is_narrowed(wide, target) && is_quotient(target, len, scale)
}

/// The test whether an edge of length `len` has a direction may come out as
/// `verdict`: true where zero is found less than the length.
pub open spec fn finds_extent<S: Scalar>(len: S, verdict: bool) -> bool {
    exists|zero: S| is_zero(zero) && finds_less(zero, len, verdict)
}

/// `correction` may be what `FixedLength(wide)` comes to on the edge from
/// `start` to `end`: nothing exactly where zero is found not less than the
/// edge's length; else both ends about the midpoint, half the edge's delta
/// away, the delta scaled by the length asked for over the length there is.
pub open spec fn is_length_correction<S: Scalar>(
    start: Point<S>,
    end: Point<S>,
    wide: S::Wide,
    correction: Correction<S>,
) -> bool {
    exists|dx: S, dy: S, len: S, extended: bool| #[trigger]
        is_edge_delta(start, end, dx, dy, len) && #[trigger] finds_extent(len, extended)
            && match correction {
            Correction::Keep => !extended,
            Correction::Endpoints { start_x, start_y, end_x, end_y } => extended && exists|
                scale: S,
                off_x: S,
                off_y: S,
            |
                is_length_scale(wide, len, scale) && is_scaled_half(dx, scale, off_x)
                    && is_scaled_half(dy, scale, off_y) && is_about_midpoint(
                    start,
                    end,
                    off_x,
                    off_y,
                    start_x,
                    start_y,
                    end_x,
                    end_y,
                ),
            _ => false,
        }
}

impl<S: Scalar> PolygonModel<S> {
    /// True where slot `i` holds a cubic curve.
    pub open spec fn curve_at(self, i: int) -> bool {
        match self.slot(i) {
            Some(c) => c is Bezier,
            None => false,
        }
    }

    /// The polygon after `correction` was written for the edge from vertex
    /// `start` to vertex `end`.
    pub open spec fn corrected(self, start: int, end: int, correction: Correction<S>) -> Self {
        match correction {
            Correction::Keep => self,
            Correction::LevelY(y) => {
                let once = self.vertices.update(start, self.vertices[start].with_y(y));
                PolygonModel { vertices: once.update(end, once[end].with_y(y)), ..self }
            },
            Correction::LevelX(x) => {
                let once = self.vertices.update(start, self.vertices[start].with_x(x));
                PolygonModel { vertices: once.update(end, once[end].with_x(x)), ..self }
            },
            Correction::Endpoints { start_x, start_y, end_x, end_y } => {
                let once = self.vertices.update(
                    start,
                    self.vertices[start].moved_to(start_x, start_y),
                );
                PolygonModel {
                    vertices: once.update(end, once[end].moved_to(end_x, end_y)),
                    ..self
                }
            },
            Correction::Controls { control1, control2 } => match self.slot(start) {
                Some(
                    ConstraintType::Bezier {
                        control1: c1,
                        control2: c2,
                        g1_start,
                        g1_end,
                        c1_start,
                        c1_end,
                    },
                ) => self.with_slot(
                    start,
                    Some(
                        ConstraintType::Bezier {
                            control1: match control1 {
                                Some(p) => p,
                                None => c1,
                            },
                            control2: match control2 {
                                Some(p) => p,
                                None => c2,
                            },
                            g1_start,
                            g1_end,
                            c1_start,
                            c1_end,
                        },
                    ),
                ),
                _ => self,
            },
        }
    }

    /// The vertex before `start` and the vertex after `end` on the ring, with
    /// the control points of the curve in slot `start`, admit `control1` and
    /// `control2` as the new control points: each as the continuity of the
    /// vertex at its end places it. Below two vertices, or without a curve in
    /// the slot, there is no new control point.
    pub open spec fn admits_controls(
        self,
        start: int,
        end: int,
        control1: Option<Point<S>>,
        control2: Option<Point<S>>,
    ) -> bool {
        let n = self.vertices.len() as int;
        match self.slot(start) {
            Some(ConstraintType::Bezier { control1: old1, control2: old2, .. }) => if n >= 2 {
                &&& is_control_placement(
                    self.vertices[start].continuity,
                    self.vertices[start],
                    self.vertices[ring_prev(start, n)],
                    old1,
                    control1,
                )
                &&& is_control_placement(
                    self.vertices[end].continuity,
                    self.vertices[end],
                    self.vertices[ring_next(end, n)],
                    old2,
                    control2,
                )
            } else {
                control1 is None && control2 is None
            },
            _ => control1 is None && control2 is None,
        }
    }

    /// The corrections that enforcing `constraint` on the edge from `start` to
    /// `end` can come to.
    ///
    /// `Horizontal` levels both ends at the mean of their ordinates, `Vertical`
    /// at the mean of their abscissas. `Diagonal45` and `FixedLength` put both
    /// ends about the midpoint or, on a degenerate edge, write nothing: see
    /// [`is_diagonal_correction`] and [`is_length_correction`]. `Arc` and `Line`
    /// write nothing. `Bezier` places the control points of the curve in the
    /// slot: see [`PolygonModel::admits_controls`].
    pub open spec fn admissible(
        self,
        start: int,
        end: int,
        constraint: ConstraintType<S>,
        correction: Correction<S>,
    ) -> bool {
        match constraint {
            ConstraintType::Horizontal => correction matches Correction::LevelY(y) && is_mean(
                self.vertices[start].y,
                self.vertices[end].y,
                y,
            ),
            ConstraintType::Vertical => correction matches Correction::LevelX(x) && is_mean(
                self.vertices[start].x,
                self.vertices[end].x,
                x,
            ),
            ConstraintType::Diagonal45 => is_diagonal_correction(
                self.vertices[start],
                self.vertices[end],
                correction,
            ),
            ConstraintType::FixedLength(wide) => is_length_correction(
                self.vertices[start],
                self.vertices[end],
                wide,
                correction,
            ),
            ConstraintType::Arc { .. } => correction is Keep,
            ConstraintType::Line => correction is Keep,
            ConstraintType::Bezier { .. } => correction matches Correction::Controls {
                control1,
                control2,
            } && self.admits_controls(start, end, control1, control2),
        }
    }

    /// `post` is what enforcing `constraint` on the edge from `start` to `end`
    /// can make of `self`.
    pub open spec fn enforced(
        self,
        post: Self,
        start: int,
        end: int,
        constraint: ConstraintType<S>,
    ) -> bool {
        exists|correction: Correction<S>|
            #[trigger] self.admissible(start, end, constraint, correction) && post
                == self.corrected(start, end, correction)
    }

    /// `post` is what the pass can make of `self` when it comes to edge `i`:
    /// `self` where the slot is empty, an enforcement of the slot's constraint on
    /// the edge from `i` to the next vertex of the ring where it is filled.
    pub open spec fn stepped(self, post: Self, i: int) -> bool {
        match self.slot(i) {
            Some(constraint) => self.enforced(
                post,
                i,
                ring_next(i, self.vertices.len() as int),
                constraint,
            ),
            None => post == self,
        }
    }

    /// `trace` records a whole pass over `self`: it starts at `self`, and each
    /// state follows from the one before by the step for that edge, edges in
    /// ascending order.
    pub open spec fn traced_by(self, trace: Seq<Self>) -> bool {
        &&& trace.len() == self.vertices.len() + 1
        &&& trace[0] == self
        &&& forall|i: int|
            0 <= i < self.vertices.len() ==> (#[trigger] trace[i]).stepped(trace[i + 1], i)
    }

    /// `post` is what one pass of constraint propagation can make of `self`.
    /// Below two vertices there is nothing to propagate.
    pub open spec fn propagated(self, post: Self) -> bool {
        if self.vertices.len() < 2 {
            post == self
        } else {
            exists|trace: Seq<Self>| #[trigger] self.traced_by(trace) && trace.last() == post
        }
    }
}

impl<S: Scalar> Polygon<S> {
    /// Writes `correction` for the edge from vertex `start_idx` to vertex
    /// `end_idx`.
    pub fn apply_correction(&mut self, start_idx: usize, end_idx: usize, correction: Correction<S>)
        requires
            start_idx < old(self)@.vertices.len(),
            end_idx < old(self)@.vertices.len(),
        ensures
            final(self)@ == old(self)@.corrected(start_idx as int, end_idx as int, correction),
    {
        match correction {
            Correction::Keep => {},
            Correction::LevelY(y) => {
                let a = self.vertices[start_idx];
                self.vertices.set(
                    start_idx,
                    Point { x: a.x, y, role: a.role, continuity: a.continuity },
                );
                let b = self.vertices[end_idx];
                self.vertices.set(
                    end_idx,
                    Point { x: b.x, y, role: b.role, continuity: b.continuity },
                );
            },
            Correction::LevelX(x) => {
                let a = self.vertices[start_idx];
                self.vertices.set(
                    start_idx,
                    Point { x, y: a.y, role: a.role, continuity: a.continuity },
                );
                let b = self.vertices[end_idx];
                self.vertices.set(
                    end_idx,
                    Point { x, y: b.y, role: b.role, continuity: b.continuity },
                );
            },
            Correction::Endpoints { start_x, start_y, end_x, end_y } => {
                let a = self.vertices[start_idx];
                self.vertices.set(
                    start_idx,
                    Point { x: start_x, y: start_y, role: a.role, continuity: a.continuity },
                );
                let b = self.vertices[end_idx];
                self.vertices.set(
                    end_idx,
                    Point { x: end_x, y: end_y, role: b.role, continuity: b.continuity },
                );
            },
            Correction::Controls { control1, control2 } => {
                match self.get_constraint(start_idx) {
                    Some(
                        ConstraintType::Bezier {
                            control1: c1,
                            control2: c2,
                            g1_start,
                            g1_end,
                            c1_start,
                            c1_end,
                        },
                    ) => {
                        let new1 = match control1 {
                            Some(p) => p,
                            None => c1,
                        };
                        let new2 = match control2 {
                            Some(p) => p,
                            None => c2,
                        };
                        self.constraints.set(
                            start_idx,
                            Some(
                                ConstraintType::Bezier {
                                    control1: new1,
                                    control2: new2,
                                    g1_start,
                                    g1_end,
                                    c1_start,
                                    c1_end,
                                },
                            ),
                        );
                    },
                    _ => {},
                }
            },
        }
    }

    /// Where the handle of a vertex of continuity `cont` belongs, given the
    /// vertex, its neighbour on the far side and the handle as it is: in line
    /// with the neighbour at the handle's own distance for `G1`, a third of the
    /// way from the neighbour's side for `C1`. None where the handle stays: for
    /// the other classes, and where the neighbour is too close to give a
    /// direction.
    pub fn place_control(cont: Continuity, vertex: Point<S>, neighbour: Point<S>, control: Point<
        S,
    >) -> (placed: Option<Point<S>>)
        ensures
            is_control_placement(cont, vertex, neighbour, control, placed),
    {
        match cont {
            Continuity::G1 => {
                let dir_x = vertex.x.minus(neighbour.x);
                let dir_y = vertex.y.minus(neighbour.y);
                let len = norm(dir_x, dir_y);
                let flat = len.less(S::epsilon());
                assert(is_direction(vertex, neighbour, dir_x, dir_y, len, flat));
                if flat {
                    None
                } else {
                    let current_len = control.distance(&vertex);
                    let norm_x = dir_x.over(len);
                    let norm_y = dir_y.over(len);
                    let p = Point {
                        x: vertex.x.plus(norm_x.times(current_len)),
                        y: vertex.y.plus(norm_y.times(current_len)),
                        role: PointRole::Control,
                        continuity: cont,
                    };
                    assert(is_g1_place(vertex, control, dir_x, dir_y, len, p)) by {
                        assert(is_advance(vertex.x, norm_x, current_len, p.x));
                        assert(is_advance(vertex.y, norm_y, current_len, p.y));
                    }
                    Some(p)
                }
            },
            Continuity::C1 => {
                let dir_x = vertex.x.minus(neighbour.x);
                let dir_y = vertex.y.minus(neighbour.y);
                let len = norm(dir_x, dir_y);
                let flat = len.less(S::epsilon());
                assert(is_direction(vertex, neighbour, dir_x, dir_y, len, flat));
                if flat {
                    None
                } else {
                    let three: S = S::from_int(3);
                    let p = Point {
                        x: vertex.x.plus(dir_x.over(three)),
                        y: vertex.y.plus(dir_y.over(three)),
                        role: PointRole::Control,
                        continuity: cont,
                    };
                    assert(is_c1_place(vertex, dir_x, dir_y, p));
                    Some(p)
                }
            },
            _ => None,
        }
    }

    /// Works out what enforcing `constraint` on the edge from vertex
    /// `start_idx` to vertex `end_idx` writes. The polygon is only read.
    pub fn plan_correction(
        &self,
        start_idx: usize,
        end_idx: usize,
        constraint: &ConstraintType<S>,
    ) -> (correction: Correction<S>)
        requires
            start_idx < self@.vertices.len(),
            end_idx < self@.vertices.len(),
        ensures
            self@.admissible(start_idx as int, end_idx as int, *constraint, correction),
    {
        let start = self.vertices[start_idx];
        let end = self.vertices[end_idx];
        match constraint {
            ConstraintType::Horizontal => Correction::LevelY(mean(start.y, end.y)),
            ConstraintType::Vertical => Correction::LevelX(mean(start.x, end.x)),
            ConstraintType::Diagonal45 => Self::plan_diagonal(start, end),
            ConstraintType::FixedLength(len) => Self::plan_length(start, end, *len),
            ConstraintType::Bezier { .. } => {
                let n: usize = self.vertices.len();
                if n < 2 {
                    return Correction::Controls { control1: None, control2: None };
                }
                match self.get_constraint(start_idx) {
                    Some(ConstraintType::Bezier { control1, control2, .. }) => {
                        let prev_idx: usize = if start_idx == 0 {
                            n - 1
                        } else {
                            start_idx - 1
                        };
                        let next_idx: usize = (end_idx + 1) % n;
                        let prev = self.vertices[prev_idx];
                        let next = self.vertices[next_idx];
                        Correction::Controls {
                            control1: Self::place_control(start.continuity, start, prev, control1),
                            control2: Self::place_control(end.continuity, end, next, control2),
                        }
                    },
                    _ => Correction::Controls { control1: None, control2: None },
                }
            },
            _ => Correction::Keep,
        }
    }

    /// What `Diagonal45` writes for the edge from `start` to `end`.
    pub fn plan_diagonal(start: Point<S>, end: Point<S>) -> (correction: Correction<S>)
        ensures
            is_diagonal_correction(start, end, correction),
    {
        let dx = end.x.minus(start.x);
        let dy = end.y.minus(start.y);
        let len = norm(dx, dy);
        let eps = S::epsilon();
        let flat = len.less(eps);
        assert(is_edge_delta(start, end, dx, dy, len));
        assert(finds_short(len, eps, flat));
        if flat {
            return Correction::Keep;
        }
        let mid_x = mean(start.x, end.x);
        let mid_y = mean(start.y, end.y);
        let sign_x: S = if zero::<S>().at_most(dx) {
            S::from_int(1)
        } else {
            S::from_int(-1)
        };
        let sign_y: S = if zero::<S>().at_most(dy) {
            S::from_int(1)
        } else {
            S::from_int(-1)
        };
        assert(is_sign(dx, sign_x));
        assert(is_sign(dy, sign_y));
        let double: S = two();
        let offset = len.over(double.times(double.sqrt()));
        assert(is_diagonal_offset(len, offset));
        let off_x = offset.times(sign_x);
        let off_y = offset.times(sign_y);
        let start_x = mid_x.minus(off_x);
        let start_y = mid_y.minus(off_y);
        let end_x = mid_x.plus(off_x);
        let end_y = mid_y.plus(off_y);
        assert(is_about_midpoint(start, end, off_x, off_y, start_x, start_y, end_x, end_y));
        Correction::Endpoints { start_x, start_y, end_x, end_y }
    }

    /// What `FixedLength(wide)` writes for the edge from `start` to `end`.
    pub fn plan_length(start: Point<S>, end: Point<S>, wide: S::Wide) -> (correction: Correction<S>)
        ensures
            is_length_correction(start, end, wide, correction),
    {
        let dx = end.x.minus(start.x);
        let dy = end.y.minus(start.y);
        let current_len = norm(dx, dy);
        let extended = zero::<S>().less(current_len);
        assert(is_edge_delta(start, end, dx, dy, current_len));
        assert(finds_extent(current_len, extended));
        if extended {
            let scale = S::narrow(wide).over(current_len);
            assert(is_length_scale(wide, current_len, scale));
            let mid_x = mean(start.x, end.x);
            let mid_y = mean(start.y, end.y);
            let scaled_x = dx.times(scale);
            let off_x = scaled_x.over(two());
            assert(is_scaled_half(dx, scale, off_x)) by {
                assert(is_halved(scaled_x, off_x));
            }
            let scaled_y = dy.times(scale);
            let off_y = scaled_y.over(two());
            assert(is_scaled_half(dy, scale, off_y)) by {
                assert(is_halved(scaled_y, off_y));
            }
            let start_x = mid_x.minus(off_x);
            let start_y = mid_y.minus(off_y);
            let end_x = mid_x.plus(off_x);
            let end_y = mid_y.plus(off_y);
            assert(is_about_midpoint(start, end, off_x, off_y, start_x, start_y, end_x, end_y));
            Correction::Endpoints { start_x, start_y, end_x, end_y }
        } else {
            Correction::Keep
        }
    }

    /// Brings the edge from vertex `start_idx` to vertex `end_idx` in line
    /// with `constraint`.
    pub fn enforce_constraint(
        &mut self,
        start_idx: usize,
        end_idx: usize,
        constraint: &ConstraintType<S>,
    )
        requires
            start_idx < old(self)@.vertices.len(),
            end_idx < old(self)@.vertices.len(),
        ensures
            old(self)@.enforced(final(self)@, start_idx as int, end_idx as int, *constraint),
    {
        let correction = self.plan_correction(start_idx, end_idx, constraint);
        self.apply_correction(start_idx, end_idx, correction);
    }

    /// Re-establishes the constraints after an edit: every edge in ascending
    /// order, once, each filled slot enforced on the vertices as the edges
    /// before it left them. Where two edges pull at a shared vertex, the later
    /// one has the last word.
    pub fn apply_constraints(&mut self)
        ensures
            old(self)@.propagated(final(self)@),
    {
        let n: usize = self.vertices.len();
        if n < 2 {
            return;
        }
        let ghost mut trace: Seq<PolygonModel<S>> = seq![self@];
        let mut i: usize = 0;
        while i < n
            invariant
                2 <= n,
                n == old(self)@.vertices.len(),
                n == self@.vertices.len(),
                i <= n,
                trace.len() == i + 1,
                trace[0] == old(self)@,
                trace[i as int] == self@,
                forall|k: int| 0 <= k <= i ==> (#[trigger] trace[k]).vertices.len() == n,
                forall|k: int| 0 <= k < i ==> (#[trigger] trace[k]).stepped(trace[k + 1], k),
            decreases n - i,
        {
            let ghost before = self@;
            match self.get_constraint(i) {
                Some(constraint) => {
                    let end_idx: usize = (i + 1) % n;
                    self.enforce_constraint(i, end_idx, &constraint);
                    proof {
                        lemma_corrected_keeps_shape(before, self@, i as int, end_idx as int, constraint);
                    }
                },
                None => {},
            }
            proof {
                trace = trace.push(self@);
            }
            i += 1;
        }
        assert(old(self)@.traced_by(trace));
        assert(trace.last() == self@);
    }
}

/// Enforcing a constraint neither adds nor removes a vertex or a slot.
pub proof fn lemma_corrected_keeps_shape<S: Scalar>(
    pre: PolygonModel<S>,
    post: PolygonModel<S>,
    start: int,
    end: int,
    constraint: ConstraintType<S>,
)
    requires
        0 <= start < pre.vertices.len(),
        0 <= end < pre.vertices.len(),
        pre.enforced(post, start, end, constraint),
    ensures
        post.vertices.len() == pre.vertices.len(),
        post.constraints.len() == pre.constraints.len(),
{
}

/// A pass of propagation neither adds nor removes a vertex or a slot.
pub proof fn lemma_propagated_keeps_shape<S: Scalar>(pre: PolygonModel<S>, post: PolygonModel<S>)
    requires
        pre.propagated(post),
    ensures
        post.vertices.len() == pre.vertices.len(),
        post.constraints.len() == pre.constraints.len(),
{
    if pre.vertices.len() >= 2 {
        let trace = choose|trace: Seq<PolygonModel<S>>|
            #[trigger] pre.traced_by(trace) && trace.last() == post;
        lemma_trace_keeps_shape(pre, trace, pre.vertices.len() as int);
    }
}

/// Every state of a pass has the vertices and slots of the first, by number.
pub proof fn lemma_trace_keeps_shape<S: Scalar>(
    pre: PolygonModel<S>,
    trace: Seq<PolygonModel<S>>,
    k: int,
)
    requires
        pre.traced_by(trace),
        0 <= k <= pre.vertices.len(),
    ensures
        trace[k].vertices.len() == pre.vertices.len(),
        trace[k].constraints.len() == pre.constraints.len(),
    decreases k,
{
    if k > 0 {
        lemma_trace_keeps_shape(pre, trace, k - 1);
        let n = pre.vertices.len() as int;
        let before = trace[k - 1];
        assert(before.stepped(trace[k - 1 + 1], k - 1));
        match before.slot(k - 1) {
            Some(constraint) => {
                lemma_ring_next(k - 1, n);
                lemma_corrected_keeps_shape(
                    before,
                    trace[k],
                    k - 1,
                    ring_next(k - 1, n),
                    constraint,
                );
            },
            None => {},
        }
    }
}

/// One step of the pass leaves every vertex its role and its continuity.
pub proof fn lemma_step_keeps_tags<S: Scalar>(
    before: PolygonModel<S>,
    after: PolygonModel<S>,
    j: int,
    v: int,
)
    requires
        before.stepped(after, j),
        0 <= j < before.vertices.len(),
        0 <= v < before.vertices.len(),
    ensures
        after.vertices[v].role == before.vertices[v].role,
        after.vertices[v].continuity == before.vertices[v].continuity,
{
    let n = before.vertices.len() as int;
    lemma_ring_next(j, n);
    match before.slot(j) {
        Some(constraint) => {
            let end = ring_next(j, n);
            let correction = choose|correction: Correction<S>|
                #[trigger] before.admissible(j, end, constraint, correction) && after
                    == before.corrected(j, end, correction);
            assert(after == before.corrected(j, end, correction));
        },
        None => {},
    }
}

/// Every state of a pass has each vertex in the role and with the continuity
/// it had in the first.
pub proof fn lemma_trace_keeps_tags<S: Scalar>(
    pre: PolygonModel<S>,
    trace: Seq<PolygonModel<S>>,
    k: int,
    v: int,
)
    requires
        pre.traced_by(trace),
        0 <= k <= pre.vertices.len(),
        0 <= v < pre.vertices.len(),
    ensures
        trace[k].vertices[v].role == pre.vertices[v].role,
        trace[k].vertices[v].continuity == pre.vertices[v].continuity,
    decreases k,
{
    if k > 0 {
        lemma_trace_keeps_tags(pre, trace, k - 1, v);
        lemma_trace_keeps_shape(pre, trace, k - 1);
        assert(trace[k - 1].stepped(trace[k - 1 + 1], k - 1));
        lemma_step_keeps_tags(trace[k - 1], trace[k], k - 1, v);
    }
}

/// A pass of propagation moves vertices but never changes what they are:
/// each keeps its role and its continuity.
pub proof fn lemma_propagated_keeps_tags<S: Scalar>(
    pre: PolygonModel<S>,
    post: PolygonModel<S>,
    v: int,
)
    requires
        pre.propagated(post),
        0 <= v < pre.vertices.len(),
    ensures
        post.vertices[v].role == pre.vertices[v].role,
        post.vertices[v].continuity == pre.vertices[v].continuity,
{
    if pre.vertices.len() >= 2 {
        let trace = choose|trace: Seq<PolygonModel<S>>|
            #[trigger] pre.traced_by(trace) && trace.last() == post;
        lemma_trace_keeps_tags(pre, trace, pre.vertices.len() as int, v);
    }
}

} // verus!

//! The polygon: its vertices, one constraint slot per edge, and the accessors
//! that never reach outside either sequence.
use vstd::prelude::*;
use crate::constraint::ConstraintType;
use crate::point::Point;
use crate::relation::is_sum;
use crate::scalar::Scalar;

verus! {

/// A closed polygon. Edge `i` runs from vertex `i` to vertex `(i + 1) % n` and
/// is held to `constraints[i]`, where that slot is filled.
pub struct Polygon<S: Scalar> {
    pub vertices: Vec<Point<S>>,
    pub constraints: Vec<Option<ConstraintType<S>>>,
}

/// The mathematical content of a [`Polygon`].
pub struct PolygonModel<S: Scalar> {
    pub vertices: Seq<Point<S>>,
    pub constraints: Seq<Option<ConstraintType<S>>>,
}

impl<S: Scalar> View for Polygon<S> {
    type V = PolygonModel<S>;

    open spec fn view(&self) -> PolygonModel<S> {
        PolygonModel { vertices: self.vertices@, constraints: self.constraints@ }
    }
}

/// The index after `i` on a ring of `n` places.
pub open spec fn ring_next(i: int, n: int) -> int {
    (i + 1) % n
}

/// The index before `i` on a ring of `n` places.
pub open spec fn ring_prev(i: int, n: int) -> int {
    if i == 0 {
        n - 1
    } else {
        i - 1
    }
}

/// `ring_next` without the division: a step forward, or back to the start.
pub proof fn lemma_ring_next(i: int, n: int)
    requires
        0 <= i <= n,
        0 < n,
    ensures
        i < n - 1 ==> ring_next(i, n) == i + 1,
        i == n - 1 ==> ring_next(i, n) == 0,
        i == n ==> ring_next(i, n) == 1int % n,
        0 <= ring_next(i, n) < n,
{
    if i < n - 1 {
        assert((i + 1) % n == i + 1) by (nonlinear_arith)
            requires
                0 <= i + 1 < n,
        ;
    } else if i == n - 1 {
        assert((i + 1) % n == 0) by (nonlinear_arith)
            requires
                i + 1 == n,
                0 < n,
        ;
    } else {
        assert((i + 1) % n == 1int % n) by (nonlinear_arith)
            requires
                i == n,
                0 < n,
        ;
        assert(0 <= 1int % n < n) by (nonlinear_arith)
            requires
                0 < n,
        ;
    }
}

impl<S: Scalar> PolygonModel<S> {
    /// The number of edges: one per vertex from two vertices on, none below.
    pub open spec fn edge_count(self) -> nat {
        if self.vertices.len() > 1 {
            self.vertices.len()
        } else {
            0
        }
    }

    /// Every edge has a slot and every slot an edge.
    pub open spec fn aligned(self) -> bool {
        self.constraints.len() == self.edge_count()
    }

    /// The constraint on edge `i`; none outside the slots.
    pub open spec fn slot(self, i: int) -> Option<ConstraintType<S>> {
        if 0 <= i < self.constraints.len() {
            self.constraints[i]
        } else {
            None
        }
    }

    /// The polygon with slot `i` set to `c`; unchanged outside the slots.
    pub open spec fn with_slot(self, i: int, c: Option<ConstraintType<S>>) -> Self {
        if 0 <= i < self.constraints.len() {
            PolygonModel { constraints: self.constraints.update(i, c), ..self }
        } else {
            self
        }
    }

    /// The polygon with vertex `index` at `(x, y)`, in the same role and with
    /// the same continuity.
    pub open spec fn with_vertex_at(self, index: int, x: S, y: S) -> Self {
        PolygonModel {
            vertices: self.vertices.update(index, self.vertices[index].moved_to(x, y)),
            ..self
        }
    }

    /// The polygon with exactly one slot per edge: surplus slots dropped from
    /// the end, missing ones added empty.
    pub open spec fn resynced(self) -> Self {
        PolygonModel {
            constraints: Seq::new(self.edge_count(), |k: int| self.slot(k)),
            ..self
        }
    }

    /// Whether `c` may be put on edge `i` beside what its two neighbours carry.
    ///
    /// Only the axis constraints are ever refused. `Horizontal` is refused
    /// where a neighbour is `Horizontal`; `Vertical` is accepted only where
    /// both neighbours are `Vertical`.
    pub open spec fn admits(self, i: int, c: ConstraintType<S>) -> bool {
        let n = self.constraints.len() as int;
        let before = self.constraints[ring_prev(i, n)];
        let after = self.constraints[ring_next(i, n)];
        if n == 0 {
            true
        } else {
            match c {
                ConstraintType::Horizontal => !(before matches Some(b) && b is Horizontal)
                    && !(after matches Some(a) && a is Horizontal),
                ConstraintType::Vertical => (before matches Some(b) && b is Vertical)
                    && (after matches Some(a) && a is Vertical),
                _ => true,
            }
        }
    }
}

/// Bringing the slots back to one per edge a second time changes nothing.
pub proof fn lemma_resync_is_idempotent<S: Scalar>(m: PolygonModel<S>)
    ensures
        m.resynced().aligned(),
        m.resynced().resynced() == m.resynced(),
        m.aligned() ==> m.resynced() == m,
{
    assert(m.resynced().resynced().constraints =~= m.resynced().constraints);
    if m.aligned() {
        assert(m.resynced().constraints =~= m.constraints);
    }
}

impl<S: Scalar> Polygon<S> {
    /// A polygon on `vertices` with one empty slot per edge: one per vertex
    /// from two vertices on, none below.
    pub fn new(vertices: Vec<Point<S>>) -> (p: Self)
        ensures
            p@.vertices == vertices@,
            p@.constraints == Seq::new(p@.edge_count(), |k: int| None::<ConstraintType<S>>),
            p@.aligned(),
    {
        let mut constraints: Vec<Option<ConstraintType<S>>> = Vec::new();
        let edge_count: usize = if vertices.len() > 1 {
            vertices.len()
        } else {
            0
        };
        while constraints.len() < edge_count
            invariant
                constraints@.len() <= edge_count,
                forall|k: int| 0 <= k < constraints@.len() ==> constraints@[k] is None,
            decreases edge_count - constraints@.len(),
        {
            constraints.push(None);
        }
        Polygon { vertices, constraints }
    }

    /// Moves vertex `index` by `(dx, dy)`. Out of range, nothing happens.
    /// Constraints are not re-applied: that is left to the caller, once per
    /// gesture.
    pub fn move_vertex(&mut self, index: usize, dx: S, dy: S)
        ensures
            index >= old(self)@.vertices.len() ==> final(self)@ == old(self)@,
            index < old(self)@.vertices.len() ==> final(self)@ == old(self)@.with_vertex_at(
                index as int,
                final(self)@.vertices[index as int].x,
                final(self)@.vertices[index as int].y,
            ),
            index < old(self)@.vertices.len() ==> is_sum(
                old(self)@.vertices[index as int].x,
                dx,
                final(self)@.vertices[index as int].x,
            ) && is_sum(
                old(self)@.vertices[index as int].y,
                dy,
                final(self)@.vertices[index as int].y,
            ),
    {
        if index < self.vertices.len() {
            let mut v = self.vertices[index];
            v.translate(dx, dy);
            self.vertices.set(index, v);
            assert(self@.vertices =~= old(self)@.with_vertex_at(index as int, v.x, v.y).vertices);
        }
    }

    /// Puts vertex `index` at `(x, y)`, keeping its role and continuity.
    pub fn place_vertex(&mut self, index: usize, x: S, y: S)
        requires
            index < old(self).vertices.len(),
        ensures
            final(self)@ == old(self)@.with_vertex_at(index as int, x, y),
    {
        let v = self.vertices[index];
        self.vertices.set(index, Point { x, y, role: v.role, continuity: v.continuity });
    }

    /// Puts `constaint` on edge `edge_idx`. Out of range, nothing happens.
    pub fn set_constaint(&mut self, edge_idx: usize, constaint: ConstraintType<S>)
        ensures
            final(self)@ == old(self)@.with_slot(edge_idx as int, Some(constaint)),
    {
        if edge_idx < self.constraints.len() {
            self.constraints.set(edge_idx, Some(constaint));
        }
    }

    /// Empties the slot of edge `edge_idx`. Out of range, nothing happens.
    pub fn remove_constaint(&mut self, edge_idx: usize)
        ensures
            final(self)@ == old(self)@.with_slot(edge_idx as int, None),
    {
        if edge_idx < self.constraints.len() {
            self.constraints.set(edge_idx, None);
        }
    }

    /// The constraint on edge `edge_idx`; none out of range.
    pub fn get_constraint(&self, edge_idx: usize) -> (c: Option<ConstraintType<S>>)
        ensures
            c == self@.slot(edge_idx as int),
    {
        if edge_idx < self.constraints.len() {
            self.constraints[edge_idx]
        } else {
            None
        }
    }

    /// Brings the slots back to one per edge. Doing it twice changes nothing
    /// more.
    pub fn ensure_constraints_len(&mut self)
        ensures
            final(self)@ == old(self)@.resynced(),
            final(self)@.aligned(),
    {
        let edge_count: usize = if self.vertices.len() > 1 {
            self.vertices.len()
        } else {
            0
        };
        self.constraints.truncate(edge_count);
        while self.constraints.len() < edge_count
            invariant
                self.vertices@ == old(self).vertices@,
                edge_count == old(self)@.edge_count(),
                self.constraints@.len() <= edge_count,
                old(self).constraints@.len() <= self.constraints@.len() || self.constraints@.len()
                    == edge_count,
                forall|k: int|
                    0 <= k < self.constraints@.len() ==> self.constraints@[k] == old(self)@.slot(k),
            decreases edge_count - self.constraints@.len(),
        {
            self.constraints.push(None);
        }
        assert(self@.constraints =~= old(self)@.resynced().constraints);
    }

    /// Whether `new_constraint` may be put on edge `edge_idx`: see
    /// [`PolygonModel::admits`].
    pub fn is_constraint_legal(&self, edge_idx: usize, new_constraint: &ConstraintType<S>) -> (legal:
        bool)
        requires
            (new_constraint is Horizontal || new_constraint is Vertical) && self@.constraints.len()
                > 0 ==> edge_idx <= self@.constraints.len(),
        ensures
            legal == self@.admits(edge_idx as int, *new_constraint),
    {
        let n: usize = self.constraints.len();
        match new_constraint {
            ConstraintType::Horizontal => {
                if n == 0 {
                    return true;
                }
                let before = self.neighbour_before(edge_idx);
                let after = self.neighbour_after(edge_idx);
                let h_before = match before {
                    Some(ConstraintType::Horizontal) => true,
                    _ => false,
                };
                let h_after = match after {
                    Some(ConstraintType::Horizontal) => true,
                    _ => false,
                };
                !h_before && !h_after
            },
            ConstraintType::Vertical => {
                if n == 0 {
                    return true;
                }
                let before = self.neighbour_before(edge_idx);
                let after = self.neighbour_after(edge_idx);
                let v_before = match before {
                    Some(ConstraintType::Vertical) => true,
                    _ => false,
                };
                let v_after = match after {
                    Some(ConstraintType::Vertical) => true,
                    _ => false,
                };
                v_before && v_after
            },
            _ => true,
        }
    }

    /// The slot before `edge_idx` on the ring of slots.
    fn neighbour_before(&self, edge_idx: usize) -> (c: Option<ConstraintType<S>>)
        requires
            0 < self@.constraints.len(),
            edge_idx <= self@.constraints.len(),
        ensures
            c == self@.constraints[ring_prev(edge_idx as int, self@.constraints.len() as int)],
    {
        let n: usize = self.constraints.len();
        let prev_idx: usize = if edge_idx == 0 {
            n - 1
        } else {
            edge_idx - 1
        };
        self.constraints[prev_idx]
    }

    /// The slot after `edge_idx` on the ring of slots.
    fn neighbour_after(&self, edge_idx: usize) -> (c: Option<ConstraintType<S>>)
        requires
            0 < self@.constraints.len(),
            edge_idx <= self@.constraints.len(),
        ensures
            c == self@.constraints[ring_next(edge_idx as int, self@.constraints.len() as int)],
    {
        let n: usize = self.constraints.len();
        let next_idx: usize = if edge_idx < n - 1 {
            edge_idx + 1
        } else if edge_idx == n - 1 {
            0
        } else {
            1 % n
        };
        proof {
            lemma_ring_next(edge_idx as int, n as int);
        }
        self.constraints[next_idx]
    }
}

} // verus!

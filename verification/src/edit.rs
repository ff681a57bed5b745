//! Structural edits: taking a vertex out and splitting an edge. Each leaves
//! one slot per edge and ends with a pass of constraint propagation.
use vstd::prelude::*;
use crate::level::{lemma_arcs_and_lines_stay, lemma_propagated_keeps_fillings};
use crate::point::{Continuity, Point, PointRole};
use crate::polygon::{ring_prev, Polygon, PolygonModel};
use crate::propagate::lemma_propagated_keeps_shape;
use crate::relation::is_mean;
use crate::scalar::{mean, Scalar};

verus! {

impl<S: Scalar> PolygonModel<S> {
    /// The slot of the edge that joins the two former neighbours once vertex
    /// `index` is gone: the one before `index` on the ring of the vertices that
    /// are left.
    pub open spec fn joining_slot(self, index: int) -> int {
        ring_prev(index, self.vertices.len() - 1)
    }

    /// The polygon without vertex `index`, before propagation: the vertex is
    /// gone, the slot of the edge that now joins its two neighbours is empty, so
    /// is slot `index`, and there is one slot per edge again. Slots are not
    /// shifted: the surplus one leaves at the end.
    pub open spec fn vertex_removed(self, index: int) -> Self {
        let taken = PolygonModel { vertices: self.vertices.remove(index), ..self };
        taken.with_slot(self.joining_slot(index), None).with_slot(index, None).resynced()
    }

    /// Where a vertex that splits the edge ending at `end` goes: behind the
    /// last vertex for the closing edge, which ends at vertex 0, and to
    /// position `end` otherwise.
    pub open spec fn split_position(self, end: int) -> int {
        if end == 0 {
            self.vertices.len() as int
        } else {
            end
        }
    }

    /// The polygon with `mid` splitting the edge from `start` to `end`, before
    /// propagation: `mid` stands at its position with an empty slot of its own,
    /// the slot of the split edge is empty, and there is one slot per edge.
    pub open spec fn vertex_added(self, start: int, end: int, mid: Point<S>) -> Self {
        let grown = if end == 0 {
            PolygonModel {
                vertices: self.vertices.push(mid),
                constraints: self.constraints.push(None),
            }
        } else {
            PolygonModel {
                vertices: self.vertices.insert(end, mid),
                constraints: self.constraints.insert(start + 1, None),
            }
        };
        grown.with_slot(start, None).resynced()
    }

    /// `post` is what removing vertex `index` can make of `self`: `self` itself
    /// where no more than three vertices are left, else a propagation of
    /// `vertex_removed`.
    pub open spec fn after_remove(self, post: Self, index: int) -> bool {
        if self.vertices.len() <= 3 {
            post == self
        } else {
            self.vertex_removed(index).propagated(post)
        }
    }

    /// `mid` may be the vertex that splits the edge from `start` to `end`: a
    /// plain vertex at the mean of vertex `start` and of vertex `end`, the
    /// latter counted around the ring.
    pub open spec fn admits_midpoint(self, start: int, end: int, mid: Point<S>) -> bool {
        let from = self.vertices[start];
        let to = self.vertices[end % (self.vertices.len() as int)];
        mid.is_plain() && is_mean(from.x, to.x, mid.x) && is_mean(from.y, to.y, mid.y)
    }

    /// `post` is what splitting the edge from `start` to `end` can make of
    /// `self`: `self` itself below two vertices, else a propagation of
    /// `vertex_added` for the midpoint of the edge.
    pub open spec fn after_add(self, post: Self, start: int, end: int) -> bool {
        if self.vertices.len() < 2 {
            post == self
        } else {
            exists|mid: Point<S>|
                self.admits_midpoint(start, end, mid) && (#[trigger] self.vertex_added(
                    start,
                    end,
                    mid,
                )).propagated(post)
        }
    }
}

impl<S: Scalar> Polygon<S> {
    /// Removes vertex `index` and re-applies the constraints. A polygon keeps
    /// at least three vertices: with three or fewer, nothing happens.
    pub fn remove_vertex(&mut self, index: usize)
        requires
            old(self).vertices.len() > 3 ==> index < old(self).vertices.len() && index <= old(
                self,
            ).constraints.len(),
        ensures
            old(self)@.after_remove(final(self)@, index as int),
    {
        if self.vertices.len() <= 3 {
            return;
        }
        self.vertices.remove(index);
        let joining: usize = if index == 0 {
            self.vertices.len() - 1
        } else {
            index - 1
        };
        if joining < self.constraints.len() {
            self.constraints.set(joining, None);
        }
        if index < self.constraints.len() {
            self.constraints.set(index, None);
        }
        self.ensure_constraints_len();
        self.apply_constraints();
    }

    /// Puts `mid` between vertex `start_idx` and vertex `end_idx` and leaves
    /// one slot per edge. Constraints are not re-applied.
    pub fn split_edge(&mut self, start_idx: usize, end_idx: usize, mid: Point<S>)
        requires
            end_idx != 0 ==> end_idx <= old(self).vertices.len() && start_idx < old(
                self,
            ).constraints.len(),
        ensures
            final(self)@ == old(self)@.vertex_added(start_idx as int, end_idx as int, mid),
    {
        if end_idx == 0 {
            self.vertices.push(mid);
            self.constraints.push(None);
        } else {
            self.vertices.insert(end_idx, mid);
            self.constraints.insert(start_idx + 1, None);
        }
        if start_idx < self.constraints.len() {
            self.constraints.set(start_idx, None);
        }
        self.ensure_constraints_len();
    }

    /// Splits the edge from vertex `start_idx` to vertex `end_idx` at its
    /// midpoint and re-applies the constraints. The split edge loses its
    /// constraint. Below two vertices, nothing happens.
    pub fn add_vertex_mid_edge(&mut self, start_idx: usize, end_idx: usize)
        requires
            old(self).vertices.len() >= 2 ==> start_idx < old(self).vertices.len(),
            old(self).vertices.len() >= 2 && end_idx != 0 ==> end_idx <= old(self).vertices.len()
                && start_idx < old(self).constraints.len(),
        ensures
            old(self)@.after_add(final(self)@, start_idx as int, end_idx as int),
    {
        let n: usize = self.vertices.len();
        if n < 2 {
            return;
        }
        let start = self.vertices[start_idx];
        let end = self.vertices[end_idx % n];
        let mid = Point {
            x: mean(start.x, end.x),
            y: mean(start.y, end.y),
            role: PointRole::Vertex,
            continuity: Continuity::Unset,
        };
        assert(old(self)@.admits_midpoint(start_idx as int, end_idx as int, mid));
        self.split_edge(start_idx, end_idx, mid);
        self.apply_constraints();
    }
}

/// Splitting an edge and then removing the vertex that was put in gives back
/// the number of vertices there was, for a polygon of three vertices or more.
pub proof fn lemma_add_then_remove_keeps_count<S: Scalar>(
    pre: PolygonModel<S>,
    split: PolygonModel<S>,
    post: PolygonModel<S>,
    start: int,
    end: int,
)
    requires
        pre.vertices.len() >= 3,
        0 <= end <= pre.vertices.len(),
        pre.after_add(split, start, end),
        split.after_remove(post, pre.split_position(end)),
    ensures
        split.vertices.len() == pre.vertices.len() + 1,
        post.vertices.len() == pre.vertices.len(),
{
    let mid = choose|mid: Point<S>|
        pre.admits_midpoint(start, end, mid) && (#[trigger] pre.vertex_added(
            start,
            end,
            mid,
        )).propagated(split);
    lemma_propagated_keeps_shape(pre.vertex_added(start, end, mid), split);
    lemma_propagated_keeps_shape(split.vertex_removed(pre.split_position(end)), post);
}

/// After a split, the edge that was split carries no constraint.
pub proof fn lemma_add_clears_the_split_edge<S: Scalar>(
    pre: PolygonModel<S>,
    post: PolygonModel<S>,
    start: int,
    end: int,
)
    requires
        pre.vertices.len() >= 2,
        pre.after_add(post, start, end),
    ensures
        post.slot(start) is None,
{
    let mid = choose|mid: Point<S>|
        pre.admits_midpoint(start, end, mid) && (#[trigger] pre.vertex_added(
            start,
            end,
            mid,
        )).propagated(post);
    lemma_propagated_keeps_fillings(pre.vertex_added(start, end, mid), post, start);
}

/// After a removal, the edge that joins the two former neighbours carries no
/// constraint, whichever vertex was removed, and neither does slot `index`.
pub proof fn lemma_remove_clears_the_neighbours<S: Scalar>(
    pre: PolygonModel<S>,
    post: PolygonModel<S>,
    index: int,
)
    requires
        pre.vertices.len() > 3,
        0 <= index < pre.vertices.len(),
        pre.after_remove(post, index),
    ensures
        post.slot(pre.joining_slot(index)) is None,
        post.slot(index) is None,
        index == 0 ==> pre.joining_slot(index) == post.vertices.len() - 1,
        index > 0 ==> pre.joining_slot(index) == index - 1,
{
    lemma_propagated_keeps_fillings(pre.vertex_removed(index), post, index);
    lemma_propagated_keeps_fillings(pre.vertex_removed(index), post, pre.joining_slot(index));
    lemma_propagated_keeps_shape(pre.vertex_removed(index), post);
}

/// Emptying a slot and bringing the slots back to one per edge leaves a
/// polygon that holds only arcs and lines that way.
proof fn lemma_resync_holds_arcs_and_lines<S: Scalar>(m: PolygonModel<S>, slot: int)
    requires
        m.only_arcs_and_lines(),
    ensures
        m.with_slot(slot, None).resynced().only_arcs_and_lines(),
        m.with_slot(slot, None).only_arcs_and_lines(),
{
    let cleared = m.with_slot(slot, None);
    assert forall|j: int| 0 <= j < cleared.constraints.len() implies match #[trigger]
        cleared.constraints[j] {
        Some(c) => c is Arc || c is Line,
        None => true,
    } by {
        if j != slot {
            assert(cleared.constraints[j] == m.constraints[j]);
        }
    }
    let synced = cleared.resynced();
    assert forall|j: int| 0 <= j < synced.constraints.len() implies match #[trigger]
        synced.constraints[j] {
        Some(c) => c is Arc || c is Line,
        None => true,
    } by {
        assert(synced.constraints[j] == cleared.slot(j));
        if j < cleared.constraints.len() {
            assert(cleared.slot(j) == cleared.constraints[j]);
        }
    }
}

/// A polygon that holds only arcs and lines still does once a vertex was
/// put in, before propagation.
proof fn lemma_added_holds_arcs_and_lines<S: Scalar>(
    pre: PolygonModel<S>,
    start: int,
    end: int,
    mid: Point<S>,
)
    requires
        pre.only_arcs_and_lines(),
        end != 0 ==> 0 <= start < pre.constraints.len(),
    ensures
        pre.vertex_added(start, end, mid).only_arcs_and_lines(),
{
    let grown = if end == 0 {
        PolygonModel {
            vertices: pre.vertices.push(mid),
            constraints: pre.constraints.push(None),
        }
    } else {
        PolygonModel {
            vertices: pre.vertices.insert(end, mid),
            constraints: pre.constraints.insert(start + 1, None),
        }
    };
    assert forall|j: int| 0 <= j < grown.constraints.len() implies match #[trigger]
        grown.constraints[j] {
        Some(c) => c is Arc || c is Line,
        None => true,
    } by {
        if end == 0 {
            if j < pre.constraints.len() {
                assert(grown.constraints[j] == pre.constraints[j]);
            }
        } else if j < start + 1 {
            assert(grown.constraints[j] == pre.constraints[j]);
        } else if j > start + 1 {
            assert(grown.constraints[j] == pre.constraints[j - 1]);
        }
    }
    lemma_resync_holds_arcs_and_lines(grown, start);
}

/// A polygon that holds only arcs and lines still does once a vertex was
/// taken out, before propagation.
proof fn lemma_removed_holds_arcs_and_lines<S: Scalar>(pre: PolygonModel<S>, index: int)
    requires
        pre.only_arcs_and_lines(),
    ensures
        pre.vertex_removed(index).only_arcs_and_lines(),
{
    let taken = PolygonModel { vertices: pre.vertices.remove(index), ..pre };
    assert(taken.only_arcs_and_lines());
    lemma_resync_holds_arcs_and_lines(taken, pre.joining_slot(index));
    lemma_resync_holds_arcs_and_lines(taken.with_slot(pre.joining_slot(index), None), index);
}

/// Where the polygon holds no constraint but arcs and lines, splitting an
/// edge and then removing the vertex that was put in gives back every vertex
/// as it was, for a polygon of three vertices or more.
pub proof fn lemma_add_then_remove_restores_vertices<S: Scalar>(
    pre: PolygonModel<S>,
    split: PolygonModel<S>,
    post: PolygonModel<S>,
    start: int,
    end: int,
)
    requires
        pre.vertices.len() >= 3,
        pre.only_arcs_and_lines(),
        0 <= end <= pre.vertices.len(),
        end != 0 ==> 0 <= start < pre.constraints.len(),
        pre.after_add(split, start, end),
        split.after_remove(post, pre.split_position(end)),
    ensures
        post.vertices == pre.vertices,
{
    let at = pre.split_position(end);
    let mid = choose|mid: Point<S>|
        pre.admits_midpoint(start, end, mid) && (#[trigger] pre.vertex_added(
            start,
            end,
            mid,
        )).propagated(split);
    let added = pre.vertex_added(start, end, mid);
    lemma_added_holds_arcs_and_lines(pre, start, end, mid);
    lemma_arcs_and_lines_stay(added, split);
    assert(split.vertices.len() == pre.vertices.len() + 1);
    let removed = split.vertex_removed(at);
    lemma_removed_holds_arcs_and_lines(split, at);
    lemma_arcs_and_lines_stay(removed, post);
    assert(split.vertices =~= (if end == 0 {
        pre.vertices.push(mid)
    } else {
        pre.vertices.insert(end, mid)
    }));
    assert(post.vertices =~= split.vertices.remove(at));
    assert(post.vertices =~= pre.vertices);
}

/// A split that changes the polygon leaves one slot per edge.
pub proof fn lemma_add_leaves_aligned<S: Scalar>(
    pre: PolygonModel<S>,
    post: PolygonModel<S>,
    start: int,
    end: int,
)
    requires
        pre.vertices.len() >= 2,
        0 <= end <= pre.vertices.len(),
        pre.after_add(post, start, end),
    ensures
        post.aligned(),
{
    let mid = choose|mid: Point<S>|
        pre.admits_midpoint(start, end, mid) && (#[trigger] pre.vertex_added(
            start,
            end,
            mid,
        )).propagated(post);
    lemma_propagated_keeps_shape(pre.vertex_added(start, end, mid), post);
}

/// A removal that changes the polygon leaves one slot per edge.
pub proof fn lemma_remove_leaves_aligned<S: Scalar>(
    pre: PolygonModel<S>,
    post: PolygonModel<S>,
    index: int,
)
    requires
        pre.vertices.len() > 3,
        0 <= index < pre.vertices.len(),
        pre.after_remove(post, index),
    ensures
        post.aligned(),
        post.vertices.len() == pre.vertices.len() - 1,
{
    lemma_propagated_keeps_shape(pre.vertex_removed(index), post);
}

/// A polygon stays one: removing a vertex never leaves fewer than three.
pub proof fn lemma_remove_keeps_three_vertices<S: Scalar>(
    pre: PolygonModel<S>,
    post: PolygonModel<S>,
    index: int,
)
    requires
        pre.vertices.len() >= 3,
        0 <= index < pre.vertices.len(),
        pre.after_remove(post, index),
    ensures
        post.vertices.len() >= 3,
{
    if pre.vertices.len() > 3 {
        lemma_propagated_keeps_shape(pre.vertex_removed(index), post);
    }
}

/// Removing a vertex from a polygon of three vertices changes nothing.
pub proof fn lemma_remove_from_triangle<S: Scalar>(
    pre: PolygonModel<S>,
    post: PolygonModel<S>,
    index: int,
)
    requires
        pre.vertices.len() == 3,
        pre.after_remove(post, index),
    ensures
        post == pre,
{
}

} // verus!

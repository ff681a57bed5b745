//! What a pass of propagation leaves behind on an axis-constrained edge.
use vstd::prelude::*;
use crate::constraint::ConstraintType;
use crate::polygon::{lemma_ring_next, ring_next, PolygonModel};
use crate::propagate::{
    is_diagonal_correction, is_length_correction, lemma_trace_keeps_shape, Correction,
};
use crate::relation::is_mean;
use crate::scalar::Scalar;

verus! {

/// Two slots agree in what they are: both empty, or filled with the same
/// variant.
pub open spec fn same_filling<S: Scalar>(
    a: Option<ConstraintType<S>>,
    b: Option<ConstraintType<S>>,
) -> bool {
    match a {
        Some(c) => match b {
            Some(d) => c.same_kind(d),
            None => false,
        },
        None => b is None,
    }
}

impl<S: Scalar> PolygonModel<S> {
    /// Vertex `v` is an end of edge `j`.
    pub open spec fn edge_ends_at(self, j: int, v: int) -> bool {
        j == v || ring_next(j, self.vertices.len() as int) == v
    }

    /// The constraint in slot `j`, if any, is one whose enforcement may write
    /// an ordinate.
    pub open spec fn slot_writes_y(self, j: int) -> bool {
        match self.slot(j) {
            Some(c) => c.writes_y(),
            None => false,
        }
    }

    /// The constraint in slot `j`, if any, is one whose enforcement may write
    /// an abscissa.
    pub open spec fn slot_writes_x(self, j: int) -> bool {
        match self.slot(j) {
            Some(c) => c.writes_x(),
            None => false,
        }
    }

    /// No slot holds anything but an arc or a line.
    pub open spec fn only_arcs_and_lines(self) -> bool {
        forall|j: int|
            0 <= j < self.constraints.len() ==> match #[trigger] self.constraints[j] {
                Some(c) => c is Arc || c is Line,
                None => true,
            }
    }

    /// No slot but slot `i` holds anything but an arc or a line.
    pub open spec fn lone_constraint_at(self, i: int) -> bool {
        forall|j: int|
            0 <= j < self.constraints.len() && j != i ==> match #[trigger] self.constraints[j] {
                Some(c) => c is Arc || c is Line,
                None => true,
            }
    }

    /// No edge that the pass handles after edge `i` and that shares a vertex
    /// with it carries a constraint that may write an ordinate.
    pub open spec fn y_undisturbed_after(self, i: int) -> bool {
        let n = self.vertices.len() as int;
        forall|j: int|
            i < j < n && (self.edge_ends_at(j, i) || self.edge_ends_at(j, ring_next(i, n)))
                ==> !#[trigger] self.slot_writes_y(j)
    }

    /// No edge that the pass handles after edge `i` and that shares a vertex
    /// with it carries a constraint that may write an abscissa.
    pub open spec fn x_undisturbed_after(self, i: int) -> bool {
        let n = self.vertices.len() as int;
        forall|j: int|
            i < j < n && (self.edge_ends_at(j, i) || self.edge_ends_at(j, ring_next(i, n)))
                ==> !#[trigger] self.slot_writes_x(j)
    }
}

/// One step of the pass leaves every slot as empty or as filled, and with
/// the same variant, as it was.
pub proof fn lemma_step_keeps_fillings<S: Scalar>(
    before: PolygonModel<S>,
    after: PolygonModel<S>,
    j: int,
    slot: int,
)
    requires
        before.stepped(after, j),
    ensures
        same_filling(after.slot(slot), before.slot(slot)),
{
    match before.slot(j) {
        Some(constraint) => {
            let end = ring_next(j, before.vertices.len() as int);
            let correction = choose|correction: Correction<S>|
                #[trigger] before.admissible(j, end, constraint, correction) && after
                    == before.corrected(j, end, correction);
            assert(after == before.corrected(j, end, correction));
        },
        None => {},
    }
}

/// Every state of a pass has the slots of the first state, as empty or as
/// filled, and with the same variants.
pub proof fn lemma_trace_keeps_fillings<S: Scalar>(
    pre: PolygonModel<S>,
    trace: Seq<PolygonModel<S>>,
    k: int,
    slot: int,
)
    requires
        pre.traced_by(trace),
        0 <= k <= pre.vertices.len(),
    ensures
        same_filling(trace[k].slot(slot), pre.slot(slot)),
    decreases k,
{
    if k > 0 {
        lemma_trace_keeps_fillings(pre, trace, k - 1, slot);
        assert(trace[k - 1].stepped(trace[k - 1 + 1], k - 1));
        lemma_step_keeps_fillings(trace[k - 1], trace[k], k - 1, slot);
    }
}

/// A pass of propagation leaves every slot as empty or as filled, and with
/// the same variant, as it was: where it writes into a slot at all, it moves
/// the control points of the curve that the slot holds.
pub proof fn lemma_propagated_keeps_fillings<S: Scalar>(
    pre: PolygonModel<S>,
    post: PolygonModel<S>,
    slot: int,
)
    requires
        pre.propagated(post),
    ensures
        same_filling(post.slot(slot), pre.slot(slot)),
{
    if pre.vertices.len() >= 2 {
        let trace = choose|trace: Seq<PolygonModel<S>>|
            #[trigger] pre.traced_by(trace) && trace.last() == post;
        lemma_trace_keeps_fillings(pre, trace, pre.vertices.len() as int, slot);
    }
}

/// A step of the pass leaves the ordinate of vertex `v` alone where edge `j`
/// does not end at `v`, or carries nothing that may write an ordinate.
pub proof fn lemma_step_keeps_y<S: Scalar>(
    before: PolygonModel<S>,
    after: PolygonModel<S>,
    j: int,
    v: int,
)
    requires
        before.stepped(after, j),
        0 <= j < before.vertices.len(),
        0 <= v < before.vertices.len(),
        !before.edge_ends_at(j, v) || !before.slot_writes_y(j),
    ensures
        after.vertices[v].y == before.vertices[v].y,
{
    let n = before.vertices.len() as int;
    lemma_ring_next(j, n);
    match before.slot(j) {
        Some(constraint) => {
            let end = ring_next(j, n);
            let correction = choose|correction: Correction<S>|
                #[trigger] before.admissible(j, end, constraint, correction) && after
                    == before.corrected(j, end, correction);
            assert(after == before.corrected(j, end, correction));
        },
        None => {},
    }
}

/// A step of the pass leaves the abscissa of vertex `v` alone where edge `j`
/// does not end at `v`, or carries nothing that may write an abscissa.
pub proof fn lemma_step_keeps_x<S: Scalar>(
    before: PolygonModel<S>,
    after: PolygonModel<S>,
    j: int,
    v: int,
)
    requires
        before.stepped(after, j),
        0 <= j < before.vertices.len(),
        0 <= v < before.vertices.len(),
        !before.edge_ends_at(j, v) || !before.slot_writes_x(j),
    ensures
        after.vertices[v].x == before.vertices[v].x,
{
    let n = before.vertices.len() as int;
    lemma_ring_next(j, n);
    match before.slot(j) {
        Some(constraint) => {
            let end = ring_next(j, n);
            let correction = choose|correction: Correction<S>|
                #[trigger] before.admissible(j, end, constraint, correction) && after
                    == before.corrected(j, end, correction);
            assert(after == before.corrected(j, end, correction));
        },
        None => {},
    }
}

/// Up to state `k` of a pass over a polygon that holds only arcs and lines,
/// nothing has changed.
proof fn lemma_arcs_and_lines_through<S: Scalar>(
    pre: PolygonModel<S>,
    trace: Seq<PolygonModel<S>>,
    k: int,
)
    requires
        pre.traced_by(trace),
        pre.only_arcs_and_lines(),
        0 <= k <= pre.vertices.len(),
    ensures
        trace[k] == pre,
    decreases k,
{
    if k > 0 {
        lemma_arcs_and_lines_through(pre, trace, k - 1);
        assert(trace[k - 1].stepped(trace[k - 1 + 1], k - 1));
        match pre.slot(k - 1) {
            Some(constraint) => {
                assert(Some(constraint) == pre.constraints[k - 1]);
            },
            None => {},
        }
    }
}

/// Arcs and lines are not enforced on positions: a pass of propagation over
/// a polygon that holds no other constraint changes nothing.
pub proof fn lemma_arcs_and_lines_stay<S: Scalar>(pre: PolygonModel<S>, post: PolygonModel<S>)
    requires
        pre.propagated(post),
        pre.only_arcs_and_lines(),
    ensures
        post == pre,
{
    if pre.vertices.len() >= 2 {
        let trace = choose|trace: Seq<PolygonModel<S>>|
            #[trigger] pre.traced_by(trace) && trace.last() == post;
        lemma_arcs_and_lines_through(pre, trace, pre.vertices.len() as int);
    }
}

/// From the state after edge `i` was handled to state `k` of the pass, both
/// ends of a `Horizontal` edge `i` keep one shared ordinate, as long as no
/// later edge at either end may write an ordinate.
proof fn lemma_level_y_through<S: Scalar>(
    pre: PolygonModel<S>,
    trace: Seq<PolygonModel<S>>,
    i: int,
    k: int,
)
    requires
        pre.traced_by(trace),
        pre.vertices.len() >= 2,
        0 <= i < k <= pre.vertices.len(),
        pre.slot(i) == Some(ConstraintType::<S>::Horizontal),
        pre.y_undisturbed_after(i),
    ensures
        trace[k].vertices[i].y == trace[k].vertices[ring_next(i, pre.vertices.len() as int)].y,
    decreases k,
{
    let n = pre.vertices.len() as int;
    let end = ring_next(i, n);
    lemma_ring_next(i, n);
    let before = trace[k - 1];
    assert(before.stepped(trace[k - 1 + 1], k - 1));
    lemma_trace_keeps_shape(pre, trace, k - 1);
    lemma_trace_keeps_fillings(pre, trace, k - 1, k - 1);
    if k == i + 1 {
        let correction = choose|correction: Correction<S>|
            #[trigger] before.admissible(i, end, ConstraintType::Horizontal, correction)
                && trace[k] == before.corrected(i, end, correction);
        assert(trace[k] == before.corrected(i, end, correction));
    } else {
        lemma_level_y_through(pre, trace, i, k - 1);
        assert(pre.edge_ends_at(k - 1, i) || pre.edge_ends_at(k - 1, end) ==> !pre.slot_writes_y(
            k - 1,
        ));
        lemma_step_keeps_y(before, trace[k], k - 1, i);
        lemma_step_keeps_y(before, trace[k], k - 1, end);
    }
}

/// From the state after edge `i` was handled to state `k` of the pass, both
/// ends of a `Vertical` edge `i` keep one shared abscissa, as long as no later
/// edge at either end may write an abscissa.
proof fn lemma_level_x_through<S: Scalar>(
    pre: PolygonModel<S>,
    trace: Seq<PolygonModel<S>>,
    i: int,
    k: int,
)
    requires
        pre.traced_by(trace),
        pre.vertices.len() >= 2,
        0 <= i < k <= pre.vertices.len(),
        pre.slot(i) == Some(ConstraintType::<S>::Vertical),
        pre.x_undisturbed_after(i),
    ensures
        trace[k].vertices[i].x == trace[k].vertices[ring_next(i, pre.vertices.len() as int)].x,
    decreases k,
{
    let n = pre.vertices.len() as int;
    let end = ring_next(i, n);
    lemma_ring_next(i, n);
    let before = trace[k - 1];
    assert(before.stepped(trace[k - 1 + 1], k - 1));
    lemma_trace_keeps_shape(pre, trace, k - 1);
    lemma_trace_keeps_fillings(pre, trace, k - 1, k - 1);
    if k == i + 1 {
        let correction = choose|correction: Correction<S>|
            #[trigger] before.admissible(i, end, ConstraintType::Vertical, correction) && trace[k]
                == before.corrected(i, end, correction);
        assert(trace[k] == before.corrected(i, end, correction));
    } else {
        lemma_level_x_through(pre, trace, i, k - 1);
        assert(pre.edge_ends_at(k - 1, i) || pre.edge_ends_at(k - 1, end) ==> !pre.slot_writes_x(
            k - 1,
        ));
        lemma_step_keeps_x(before, trace[k], k - 1, i);
        lemma_step_keeps_x(before, trace[k], k - 1, end);
    }
}

/// After a pass of propagation, the two ends of a `Horizontal` edge have the
/// very same ordinate, provided that no edge handled later in the pass, and
/// ending at one of the two vertices, carries a constraint that may write an
/// ordinate (such an edge has the last word on the vertex it shares).
pub proof fn lemma_horizontal_is_level<S: Scalar>(
    pre: PolygonModel<S>,
    post: PolygonModel<S>,
    i: int,
)
    requires
        pre.propagated(post),
        0 <= i < pre.vertices.len(),
        pre.slot(i) == Some(ConstraintType::<S>::Horizontal),
        pre.y_undisturbed_after(i),
    ensures
        post.vertices[i].y == post.vertices[ring_next(i, pre.vertices.len() as int)].y,
{
    lemma_ring_next(i, pre.vertices.len() as int);
    if pre.vertices.len() >= 2 {
        let trace = choose|trace: Seq<PolygonModel<S>>|
            #[trigger] pre.traced_by(trace) && trace.last() == post;
        lemma_level_y_through(pre, trace, i, pre.vertices.len() as int);
    }
}

/// After a pass of propagation, the two ends of a `Vertical` edge have the
/// very same abscissa, provided that no edge handled later in the pass, and
/// ending at one of the two vertices, carries a constraint that may write an
/// abscissa.
pub proof fn lemma_vertical_is_level<S: Scalar>(
    pre: PolygonModel<S>,
    post: PolygonModel<S>,
    i: int,
)
    requires
        pre.propagated(post),
        0 <= i < pre.vertices.len(),
        pre.slot(i) == Some(ConstraintType::<S>::Vertical),
        pre.x_undisturbed_after(i),
    ensures
        post.vertices[i].x == post.vertices[ring_next(i, pre.vertices.len() as int)].x,
{
    lemma_ring_next(i, pre.vertices.len() as int);
    if pre.vertices.len() >= 2 {
        let trace = choose|trace: Seq<PolygonModel<S>>|
            #[trigger] pre.traced_by(trace) && trace.last() == post;
        lemma_level_x_through(pre, trace, i, pre.vertices.len() as int);
    }
}

/// A step of the pass at a slot that is empty or holds an arc or a line
/// changes nothing.
proof fn lemma_idle_step<S: Scalar>(before: PolygonModel<S>, after: PolygonModel<S>, j: int)
    requires
        before.stepped(after, j),
        match before.slot(j) {
            Some(c) => c is Arc || c is Line,
            None => true,
        },
    ensures
        after == before,
{
}

/// In a pass over a polygon whose only constraint beside arcs and lines is
/// in slot `i`, nothing changes before edge `i` is handled, and nothing after.
proof fn lemma_lone_through<S: Scalar>(
    pre: PolygonModel<S>,
    trace: Seq<PolygonModel<S>>,
    i: int,
    k: int,
)
    requires
        pre.traced_by(trace),
        pre.lone_constraint_at(i),
        0 <= i < pre.vertices.len(),
        0 <= k <= pre.vertices.len(),
    ensures
        k <= i ==> trace[k] == pre,
        k > i ==> trace[k] == trace[i + 1],
    decreases k,
{
    if k > 0 && k != i + 1 {
        lemma_lone_through(pre, trace, i, k - 1);
        assert(trace[k - 1].stepped(trace[k - 1 + 1], k - 1));
        lemma_trace_keeps_fillings(pre, trace, k - 1, k - 1);
        lemma_trace_keeps_shape(pre, trace, k - 1);
        if 0 <= k - 1 < pre.constraints.len() {
            assert(match pre.constraints[k - 1] {
                Some(c) => c is Arc || c is Line,
                None => true,
            });
        }
        lemma_idle_step(trace[k - 1], trace[k], k - 1);
    }
}

/// Where slot `i` holds the only constraint beside arcs and lines, a pass of
/// propagation is the one step for edge `i`: the enforcement of that
/// constraint on the polygon as it was.
pub proof fn lemma_lone_constraint_is_enforced<S: Scalar>(
    pre: PolygonModel<S>,
    post: PolygonModel<S>,
    i: int,
)
    requires
        pre.propagated(post),
        pre.vertices.len() >= 2,
        0 <= i < pre.vertices.len(),
        pre.lone_constraint_at(i),
    ensures
        pre.stepped(post, i),
{
    let trace = choose|trace: Seq<PolygonModel<S>>|
        #[trigger] pre.traced_by(trace) && trace.last() == post;
    lemma_lone_through(pre, trace, i, i);
    lemma_lone_through(pre, trace, i, pre.vertices.len() as int);
    assert(trace[i].stepped(trace[i + 1], i));
}

/// Where a `Horizontal` in slot `i` is the only constraint beside arcs and
/// lines, a pass of propagation leaves both ends of edge `i` at one ordinate,
/// the mean of the two they had, and every abscissa as it was.
pub proof fn lemma_lone_horizontal_takes_the_mean<S: Scalar>(
    pre: PolygonModel<S>,
    post: PolygonModel<S>,
    i: int,
)
    requires
        pre.propagated(post),
        pre.vertices.len() >= 2,
        0 <= i < pre.vertices.len(),
        pre.lone_constraint_at(i),
        pre.slot(i) == Some(ConstraintType::<S>::Horizontal),
    ensures
        is_mean(
            pre.vertices[i].y,
            pre.vertices[ring_next(i, pre.vertices.len() as int)].y,
            post.vertices[i].y,
        ),
        post.vertices[ring_next(i, pre.vertices.len() as int)].y == post.vertices[i].y,
        forall|v: int| 0 <= v < pre.vertices.len() ==> post.vertices[v].x == pre.vertices[v].x,
{
    let n = pre.vertices.len() as int;
    let end = ring_next(i, n);
    lemma_ring_next(i, n);
    lemma_lone_constraint_is_enforced(pre, post, i);
    let correction = choose|correction: Correction<S>|
        #[trigger] pre.admissible(i, end, ConstraintType::Horizontal, correction) && post
            == pre.corrected(i, end, correction);
    assert(post == pre.corrected(i, end, correction));
}

/// Where a `FixedLength` or a `Diagonal45` in slot `i` is the only
/// constraint beside arcs and lines, a pass of propagation moves no vertex but
/// the two ends of edge `i`, and those as the constraint's correction of the
/// edge says.
pub proof fn lemma_lone_edge_is_corrected<S: Scalar>(
    pre: PolygonModel<S>,
    post: PolygonModel<S>,
    i: int,
)
    requires
        pre.propagated(post),
        pre.vertices.len() >= 2,
        0 <= i < pre.vertices.len(),
        pre.lone_constraint_at(i),
        pre.slot(i) matches Some(c) && (c is FixedLength || c is Diagonal45),
    ensures
        post.constraints == pre.constraints,
        forall|v: int|
            0 <= v < pre.vertices.len() && v != i && v != ring_next(i, pre.vertices.len() as int)
                ==> post.vertices[v] == pre.vertices[v],
        exists|correction: Correction<S>|
            (match pre.slot(i) {
                Some(ConstraintType::FixedLength(wide)) => is_length_correction(
                    pre.vertices[i],
                    pre.vertices[ring_next(i, pre.vertices.len() as int)],
                    wide,
                    correction,
                ),
                _ => is_diagonal_correction(
                    pre.vertices[i],
                    pre.vertices[ring_next(i, pre.vertices.len() as int)],
                    correction,
                ),
            }) && post == #[trigger] pre.corrected(
                i,
                ring_next(i, pre.vertices.len() as int),
                correction,
            ),
{
    let n = pre.vertices.len() as int;
    let end = ring_next(i, n);
    lemma_ring_next(i, n);
    lemma_lone_constraint_is_enforced(pre, post, i);
    let c = pre.slot(i)->Some_0;
    let correction = choose|correction: Correction<S>|
        #[trigger] pre.admissible(i, end, c, correction) && post == pre.corrected(
            i,
            end,
            correction,
        );
    assert(post == pre.corrected(i, end, correction));
}

} // verus!

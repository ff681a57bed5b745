//! The constraints an edge can carry.
use vstd::prelude::*;
use crate::point::Point;
use crate::scalar::Scalar;

verus! {

/// What one edge of a polygon is held to.
#[derive(Copy)]
pub enum ConstraintType<S: Scalar> {
    /// Both endpoints share their `y`.
    Horizontal,
    /// Both endpoints share their `x`.
    Vertical,
    /// The edge runs along a diagonal, into the quadrant it already points to.
    Diagonal45,
    /// The edge has the given length; its direction and midpoint stay.
    FixedLength(S::Wide),
    /// The edge is drawn as a circular arc; the flags ask for a tangent shared
    /// with the neighbouring edge at that end.
    Arc { g1_start: bool, g1_end: bool },
    /// A plain straight segment.
    Line,
    /// The edge is a cubic curve through two control points; the flags record
    /// the continuity asked for at each end.
    Bezier {
        control1: Point<S>,
        control2: Point<S>,
        g1_start: bool,
        g1_end: bool,
        c1_start: bool,
        c1_end: bool,
    },
}

impl<S: Scalar> Clone for ConstraintType<S> {
    fn clone(&self) -> (c: Self)
        ensures
            c == *self,
    {
        *self
    }
}

impl<S: Scalar> ConstraintType<S> {
    /// True of the constraints whose enforcement may write a vertex's `x`.
    pub open spec fn writes_x(self) -> bool {
        self is Vertical || self is Diagonal45 || self is FixedLength
    }

    /// True of the constraints whose enforcement may write a vertex's `y`.
    pub open spec fn writes_y(self) -> bool {
        self is Horizontal || self is Diagonal45 || self is FixedLength
    }

    /// True where both constraints are of the same variant.
    pub open spec fn same_kind(self, other: Self) -> bool {
        match self {
            ConstraintType::Horizontal => other is Horizontal,
            ConstraintType::Vertical => other is Vertical,
            ConstraintType::Diagonal45 => other is Diagonal45,
            ConstraintType::FixedLength(_) => other is FixedLength,
            ConstraintType::Arc { .. } => other is Arc,
            ConstraintType::Line => other is Line,
            ConstraintType::Bezier { .. } => other is Bezier,
        }
    }
}

/// The smoothness classes a junction of two segments can be given.
#[derive(Clone, Copy, PartialEq, Eq, Structural, Debug)]
pub enum ContinuityType {
    G0,
    G1,
    G2,
}

} // verus!

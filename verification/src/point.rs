//! Points of the plane, tagged with their role and continuity class.
use vstd::prelude::*;
use crate::relation::{
    finds_equal, is_difference, is_negation, is_power, is_product, is_quotient, is_root, is_sum,
    is_zero,
};
use crate::scalar::{zero, Scalar};

verus! {

/// What a point is used for.
#[derive(Clone, Copy, PartialEq, Eq, Structural, Debug)]
pub enum PointRole {
    /// A corner of the polygon.
    Vertex,
    /// A handle of a cubic curve, kept inside the curve's constraint.
    Control,
}

/// How the curve handles on both sides of a vertex are tied together.
#[derive(Clone, Copy, PartialEq, Eq, Structural, Debug)]
pub enum Continuity {
    /// No continuity class was chosen; nothing is enforced.
    Unset,
    /// Positional continuity only; nothing is enforced.
    G0,
    /// The handle keeps its distance and follows the neighbouring edge's direction.
    G1,
    /// The handle sits one third of the neighbouring edge away from the vertex.
    C1,
}

/// A point of the plane.
#[derive(Copy)]
pub struct Point<S: Scalar> {
    pub x: S,
    pub y: S,
    pub role: PointRole,
    pub continuity: Continuity,
}

impl<S: Scalar> Clone for Point<S> {
    fn clone(&self) -> (p: Self)
        ensures
            p == *self,
    {
        *self
    }
}

impl<S: Scalar> Point<S> {
    /// True of the points that arithmetic hands out: plain vertices without a
    /// continuity class.
    pub open spec fn is_plain(self) -> bool {
        self.role == PointRole::Vertex && self.continuity == Continuity::Unset
    }

    /// `self` moved to the abscissa `x`.
    pub open spec fn with_x(self, x: S) -> Self {
        Point { x, ..self }
    }

    /// `self` moved to the ordinate `y`.
    pub open spec fn with_y(self, y: S) -> Self {
        Point { y, ..self }
    }

    /// `self` moved to `(x, y)`.
    pub open spec fn moved_to(self, x: S, y: S) -> Self {
        Point { x, y, ..self }
    }

    /// A plain vertex at `(x, y)`.
    pub fn new(x: S, y: S) -> (p: Self)
        ensures
            p == (Point { x, y, role: PointRole::Vertex, continuity: Continuity::Unset }),
    {
        Point { x, y, role: PointRole::Vertex, continuity: Continuity::Unset }
    }

    /// The distance between `self` and `other`.
    pub fn distance(&self, other: &Point<S>) -> (r: S)
        ensures
            is_distance(*self, *other, r),
    {
        self.x.minus(other.x).powi(2).plus(self.y.minus(other.y).powi(2)).sqrt()
    }

    /// Moves the point by `(dx, dy)`, keeping its role and continuity.
    pub fn translate(&mut self, dx: S, dy: S)
        ensures
            final(self).role == old(self).role,
            final(self).continuity == old(self).continuity,
            is_sum(old(self).x, dx, final(self).x),
            is_sum(old(self).y, dy, final(self).y),
    {
        self.x = self.x.plus(dx);
        self.y = self.y.plus(dy);
    }

    /// The length of the vector from the origin to `self`.
    pub fn length(&self) -> (r: S)
        ensures
            is_length(*self, r),
    {
        self.x.powi(2).plus(self.y.powi(2)).sqrt()
    }

    /// The unit vector along `self`, or the zero vector where `self` has no
    /// length.
    pub fn normalized(&self) -> (p: Self)
        ensures
            p.is_plain(),
            is_unit(*self, p),
    {
        let len = self.length();
        let flat = len.equals(zero());
        assert(finds_zero(len, flat));
        if flat {
            Point::new(zero(), zero())
        } else {
            Point::new(self.x.over(len), self.y.over(len))
        }
    }

    /// `self` with both coordinates multiplied by `s`.
    pub fn scale(&self, s: S) -> (p: Self)
        ensures
            p.is_plain(),
            is_product(self.x, s, p.x),
            is_product(self.y, s, p.y),
    {
        Point::new(self.x.times(s), self.y.times(s))
    }

    /// `self` turned a quarter turn: `(-y, x)`.
    pub fn rot90(&self) -> (p: Self)
        ensures
            p.is_plain(),
            is_negation(self.y, p.x),
            p.y == self.x,
    {
        Point::new(self.y.negated(), self.x)
    }

    /// The vector sum of `self` and `other`.
    pub fn plus(self, other: Point<S>) -> (p: Self)
        ensures
            p.is_plain(),
            is_sum(self.x, other.x, p.x),
            is_sum(self.y, other.y, p.y),
    {
        Point::new(self.x.plus(other.x), self.y.plus(other.y))
    }

    /// The vector from `other` to `self`.
    pub fn minus(self, other: Point<S>) -> (p: Self)
        ensures
            p.is_plain(),
            is_difference(self.x, other.x, p.x),
            is_difference(self.y, other.y, p.y),
    {
        Point::new(self.x.minus(other.x), self.y.minus(other.y))
    }
}

/// `r` may be the distance between `p` and `q`: the square root of the sum
/// of the squares of their differences in `x` and in `y`.
pub open spec fn is_distance<S: Scalar>(p: Point<S>, q: Point<S>, r: S) -> bool {
    exists|dx: S, dy: S, xx: S, yy: S, sum: S|
        is_difference(p.x, q.x, dx) && is_power(dx, 2, xx) && is_difference(p.y, q.y, dy)
            && is_power(dy, 2, yy) && is_sum(xx, yy, sum) && is_root(sum, r)
}

/// `r` may be the length of the vector from the origin to `p`: the square
/// root of the sum of the squares of `x` and of `y`.
pub open spec fn is_length<S: Scalar>(p: Point<S>, r: S) -> bool {
    exists|xx: S, yy: S, sum: S|
        is_power(p.x, 2, xx) && is_power(p.y, 2, yy) && is_sum(xx, yy, sum) && is_root(sum, r)
}

/// The test whether `len` is zero may come out as `verdict`: true where it
/// is found equal to zero.
pub open spec fn finds_zero<S: Scalar>(len: S, verdict: bool) -> bool {
    exists|zero: S| is_zero(zero) && finds_equal(len, zero, verdict)
}

/// `r` may be the unit vector along `p`: where the length of `p` is found
/// equal to zero, zero in both coordinates; else each coordinate over the
/// length.
pub open spec fn is_unit<S: Scalar>(p: Point<S>, r: Point<S>) -> bool {
    r.is_plain() && exists|len: S, flat: bool| #[trigger]
        is_length(p, len) && #[trigger] finds_zero(len, flat) && if flat {
            is_zero(r.x) && is_zero(r.y)
        } else {
            is_quotient(p.x, len, r.x) && is_quotient(p.y, len, r.y)
        }
}

} // verus!

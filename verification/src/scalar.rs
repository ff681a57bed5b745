//! The arithmetic a polygon is measured in.
//!
//! The engine never looks inside a coordinate. It combines coordinates through
//! the operations of [`Scalar`] and stores what they return, so every contract
//! in this crate holds whatever those operations compute.
use vstd::prelude::*;
use crate::relation::{is_half, is_mean, is_millionth, is_norm, is_two, is_zero};

verus! {

/// A field of coordinates, with the handful of operations the engine needs.
///
/// An implementation for IEEE single precision forwards each method to the
/// operator or method of the same meaning. The methods carry no contract:
/// verified code that calls them is verified for every value they may return.
/// They are expected to return for every argument; the engine calls `clamp`
/// with zero and one as its bounds only.
pub trait Scalar: Copy {
    /// The wider representation in which a requested edge length is kept.
    type Wide: Copy;

    /// The scalar that stands for the integer `n`.
    fn from_int(n: i32) -> Self;

    /// The gap between one and the next larger scalar; lengths below it count
    /// as zero.
    fn epsilon() -> Self;

    /// Rounds a wide value to a scalar.
    fn narrow(wide: Self::Wide) -> Self;

    /// `self + rhs`.
    fn plus(self, rhs: Self) -> Self;

    /// `self - rhs`.
    fn minus(self, rhs: Self) -> Self;

    /// `self * rhs`.
    fn times(self, rhs: Self) -> Self;

    /// `self / rhs`.
    fn over(self, rhs: Self) -> Self;

    /// `-self`.
    fn negated(self) -> Self;

    /// The square root of `self`.
    fn sqrt(self) -> Self;

    /// `self` raised to the integer power `n`.
    fn powi(self, n: i32) -> Self;

    /// The absolute value of `self`.
    fn abs(self) -> Self;

    /// The larger of `self` and `rhs`.
    fn max(self, rhs: Self) -> Self;

    /// `self` restricted to the interval from `lo` to `hi`.
    fn clamp(self, lo: Self, hi: Self) -> Self;

    /// `self < rhs`.
    fn less(self, rhs: Self) -> bool;

    /// `self <= rhs`.
    fn at_most(self, rhs: Self) -> bool;

    /// `self == rhs`.
    fn equals(self, rhs: Self) -> bool;
}

/// The scalar two.
pub fn two<S: Scalar>() -> (r: S)
    ensures
        is_two(r),
{
    S::from_int(2)
}

/// The scalar zero.
pub fn zero<S: Scalar>() -> (r: S)
    ensures
        is_zero(r),
{
    S::from_int(0)
}

/// The scalar one half: one over two.
pub fn half<S: Scalar>() -> (r: S)
    ensures
        is_half(r),
{
    S::from_int(1).over(S::from_int(2))
}

/// The scalar one millionth: one over a million. Denominators and lengths
/// below it count as zero where a direction is derived from them.
pub fn millionth<S: Scalar>() -> (r: S)
    ensures
        is_millionth(r),
{
    S::from_int(1).over(S::from_int(1_000_000))
}

/// The mean of two scalars: their sum over two.
pub fn mean<S: Scalar>(a: S, b: S) -> (r: S)
    ensures
        is_mean(a, b, r),
{
    a.plus(b).over(two())
}

/// The length of the vector `(dx, dy)`: the square root of `dx * dx + dy * dy`.
pub fn norm<S: Scalar>(dx: S, dy: S) -> (r: S)
    ensures
        is_norm(dx, dy, r),
{
    dx.times(dx).plus(dy.times(dy)).sqrt()
}

} // verus!

//! What can be said of a result of the arithmetic without knowing the
//! arithmetic: through which operations, on which arguments, it came about.
//!
//! Each relation holds of the values that the operation of a [`Scalar`] may
//! return for the arguments given. Nothing is assumed of the operations
//! themselves, so a relation names the computation behind a value, never the
//! number that came out.
use vstd::prelude::*;
use crate::scalar::Scalar;

verus! {

/// `r` may be what stands for the integer `n`.
#[verifier::inline]
pub open spec fn is_integer<S: Scalar>(n: i32, r: S) -> bool {
    call_ensures(S::from_int, (n,), r)
}

/// `r` may be the gap between one and the next larger scalar.
#[verifier::inline]
pub open spec fn is_epsilon<S: Scalar>(r: S) -> bool {
    call_ensures(S::epsilon, (), r)
}

/// `r` may be `a + b`.
#[verifier::inline]
pub open spec fn is_sum<S: Scalar>(a: S, b: S, r: S) -> bool {
    call_ensures(S::plus, (a, b), r)
}

/// `r` may be `a - b`.
#[verifier::inline]
pub open spec fn is_difference<S: Scalar>(a: S, b: S, r: S) -> bool {
    call_ensures(S::minus, (a, b), r)
}

/// `r` may be `a * b`.
#[verifier::inline]
pub open spec fn is_product<S: Scalar>(a: S, b: S, r: S) -> bool {
    call_ensures(S::times, (a, b), r)
}

/// `r` may be `a / b`.
#[verifier::inline]
pub open spec fn is_quotient<S: Scalar>(a: S, b: S, r: S) -> bool {
    call_ensures(S::over, (a, b), r)
}

/// `r` may be `-a`.
#[verifier::inline]
pub open spec fn is_negation<S: Scalar>(a: S, r: S) -> bool {
    call_ensures(S::negated, (a,), r)
}

/// `r` may be the square root of `a`.
#[verifier::inline]
pub open spec fn is_root<S: Scalar>(a: S, r: S) -> bool {
    call_ensures(S::sqrt, (a,), r)
}

/// `r` may be `a` raised to the power `n`.
#[verifier::inline]
pub open spec fn is_power<S: Scalar>(a: S, n: i32, r: S) -> bool {
    call_ensures(S::powi, (a, n), r)
}

/// `r` may be the absolute value of `a`.
#[verifier::inline]
pub open spec fn is_magnitude<S: Scalar>(a: S, r: S) -> bool {
    call_ensures(S::abs, (a,), r)
}

/// `r` may be the larger of `a` and `b`.
#[verifier::inline]
pub open spec fn is_larger<S: Scalar>(a: S, b: S, r: S) -> bool {
    call_ensures(S::max, (a, b), r)
}

/// `r` may be `a` restricted to the interval from `lo` to `hi`.
#[verifier::inline]
pub open spec fn is_clamped<S: Scalar>(a: S, lo: S, hi: S, r: S) -> bool {
    call_ensures(S::clamp, (a, lo, hi), r)
}

/// The comparison `a < b` may come out as `verdict`.
#[verifier::inline]
pub open spec fn finds_less<S: Scalar>(a: S, b: S, verdict: bool) -> bool {
    call_ensures(S::less, (a, b), verdict)
}

/// The comparison `a == b` may come out as `verdict`.
#[verifier::inline]
pub open spec fn finds_equal<S: Scalar>(a: S, b: S, verdict: bool) -> bool {
    call_ensures(S::equals, (a, b), verdict)
}

/// The comparison `a <= b` may come out as `verdict`.
#[verifier::inline]
pub open spec fn finds_at_most<S: Scalar>(a: S, b: S, verdict: bool) -> bool {
    call_ensures(S::at_most, (a, b), verdict)
}

/// `r` may be the wide value `wide` rounded to a scalar.
#[verifier::inline]
pub open spec fn is_narrowed<S: Scalar>(wide: S::Wide, r: S) -> bool {
    call_ensures(S::narrow, (wide,), r)
}

/// `r` may be the scalar zero.
pub open spec fn is_zero<S: Scalar>(r: S) -> bool {
    is_integer(0, r)
}

/// `r` may be the scalar two.
pub open spec fn is_two<S: Scalar>(r: S) -> bool {
    is_integer(2, r)
}

/// `r` may be one over two.
pub open spec fn is_half<S: Scalar>(r: S) -> bool {
    exists|one: S, two: S| is_integer(1, one) && is_integer(2, two) && is_quotient(one, two, r)
}

/// `r` may be one over a million.
pub open spec fn is_millionth<S: Scalar>(r: S) -> bool {
    exists|one: S, million: S|
        is_integer(1, one) && is_integer(1_000_000, million) && is_quotient(one, million, r)
}

/// `r` may be the mean of `a` and `b`: their sum over two.
pub open spec fn is_mean<S: Scalar>(a: S, b: S, r: S) -> bool {
    exists|sum: S, two: S| is_sum(a, b, sum) && is_two(two) && is_quotient(sum, two, r)
}

/// `r` may be the length of the vector `(dx, dy)`: the square root of
/// `dx * dx + dy * dy`.
pub open spec fn is_norm<S: Scalar>(dx: S, dy: S, r: S) -> bool {
    exists|xx: S, yy: S, sum: S|
        is_product(dx, dx, xx) && is_product(dy, dy, yy) && is_sum(xx, yy, sum) && is_root(sum, r)
}

/// `r` may be `a` over two.
pub open spec fn is_halved<S: Scalar>(a: S, r: S) -> bool {
    exists|two: S| is_two(two) && is_quotient(a, two, r)
}

/// `r` may be `from + step * t`.
pub open spec fn is_advance<S: Scalar>(from: S, step: S, t: S, r: S) -> bool {
    exists|m: S| is_product(step, t, m) && is_sum(from, m, r)
}

/// `r` may be `from - step * t`.
pub open spec fn is_retreat<S: Scalar>(from: S, step: S, t: S, r: S) -> bool {
    exists|m: S| is_product(step, t, m) && is_difference(from, m, r)
}

} // verus!

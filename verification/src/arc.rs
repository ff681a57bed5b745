//! Circular arcs over an edge. Centre and radius are derived from the chord
//! whenever they are needed; the polygon stores neither.
use vstd::prelude::*;
use crate::point::{is_length, is_unit, Continuity, Point, PointRole};
use crate::polygon::Polygon;
use crate::relation::{
    finds_equal, finds_less, is_advance, is_difference, is_half, is_halved, is_integer, is_larger,
    is_magnitude, is_mean, is_millionth, is_negation, is_norm, is_product, is_quotient, is_root,
    is_sum, is_zero,
};
use crate::scalar::{half, mean, millionth, norm, two, zero, Scalar};

verus! {

/// How a chord compares with the radius of an arc to be laid over it.
#[derive(Copy)]
pub enum ChordFit<S: Scalar> {
    /// The chord has no length: its ends coincide.
    NoChord,
    /// The radius is below half the chord: no circle of that radius passes
    /// through both ends.
    RadiusTooSmall,
    /// An arc of `radius` spans the chord, whose length is `chord_len`.
    Fits { chord_len: S, radius: S },
}

impl<S: Scalar> Clone for ChordFit<S> {
    fn clone(&self) -> (fit: Self)
        ensures
            fit == *self,
    {
        *self
    }
}

/// The centre of the half circle over the chord from `start` to `end` on the
/// side of `normal`, the unit normal of the chord, and its distance from
/// `start`.
fn half_circle<S: Scalar>(start: Point<S>, mid: Point<S>, normal: Point<S>, chord_len: S) -> (arc:
    (Point<S>, S))
    ensures
        arc.0.is_plain(),
        is_half_circle(start, mid, normal, chord_len, arc),
{
    let reach = chord_len.over(two());
    assert(is_halved(chord_len, reach));
    let step = normal.scale(reach);
    let center = mid.plus(step);
    let radius = center.minus(start).length();
    assert(is_separation(center, start, radius));
    assert(is_scaled(normal, reach, step));
    assert(is_sum_of_points(mid, step, center));
    (center, radius)
}

/// The arc that a tangent at `anchor` asks for, `toward` minus `from` giving
/// the tangent's direction: the circle through `anchor` whose centre lies on
/// the tangent's normal and on the chord's bisector, or the half circle where
/// the two run parallel.
fn tangent_arc<S: Scalar>(
    anchor: Point<S>,
    toward: Point<S>,
    from: Point<S>,
    start: Point<S>,
    mid: Point<S>,
    normal_chord: Point<S>,
    chord_len: S,
) -> (arc: (Point<S>, S))
    ensures
        arc.0.is_plain(),
        is_tangent_arc(anchor, toward, from, start, mid, normal_chord, chord_len, arc),
{
    let tangent = toward.minus(from);
    let tangent_dir = tangent.normalized();
    let normal = Point::new(tangent_dir.y.negated(), tangent_dir.x);
    assert(is_difference_of_points(toward, from, tangent));
    assert(is_quarter_turn(tangent_dir, normal));
    assert(is_tangent_normal(toward, from, normal));
    let met = tangent_circle(anchor, mid, normal, normal_chord);
    match met {
        Some(found) => found,
        None => half_circle(start, mid, normal_chord, chord_len),
    }
}

/// The centre at which the chord's bisector meets the line through `anchor`
/// along `normal`, and its distance from `anchor`. None where the two lines
/// run parallel.
fn tangent_circle<S: Scalar>(
    anchor: Point<S>,
    mid: Point<S>,
    normal: Point<S>,
    normal_chord: Point<S>,
) -> (arc: Option<(Point<S>, S)>)
    ensures
        arc matches Some(found) ==> found.0.is_plain(),
        meets_bisector(anchor, mid, normal, normal_chord, arc),
{
    let denom = normal.x.times(normal_chord.y).minus(normal.y.times(normal_chord.x));
    assert(is_cross(normal, normal_chord, denom));
    let parallel = denom.abs().less(millionth());
    assert(finds_parallel(denom, parallel));
    if parallel {
        return None;
    }
    let delta = mid.minus(anchor);
    let numerator = delta.x.times(normal_chord.y).minus(delta.y.times(normal_chord.x));
    assert(is_cross(delta, normal_chord, numerator));
    let t = numerator.over(denom);
    let step = normal.scale(t);
    let center = anchor.plus(step);
    let radius = center.minus(anchor).length();
    assert(is_separation(center, anchor, radius));
    assert(is_crossing(anchor, mid, normal, normal_chord, denom, center, radius)) by {
        assert(is_difference_of_points(mid, anchor, delta));
        assert(is_scaled(normal, t, step));
        assert(is_sum_of_points(anchor, step, center));
    }
    Some((center, radius))
}

/// Centre and radius of the arc over the chord from `start` to `end`.
///
/// Without a tangent request the arc is the half circle on the left of the
/// chord. Where `g1_start` is set and `tangent_start` is given, the centre lies
/// on the perpendicular, through `start`, of the direction from
/// `tangent_start` to `start`, where that line meets the chord's bisector; the
/// same at the other end for `g1_end`, with the direction from `end` to
/// `tangent_end`, if the start made no arc. Where the two lines run parallel, or
/// the tangent point is missing, the half circle is the answer.
pub fn compute_arc_geometry<S: Scalar>(
    start: Point<S>,
    end: Point<S>,
    tangent_start: Option<Point<S>>,
    tangent_end: Option<Point<S>>,
    g1_start: bool,
    g1_end: bool,
) -> (arc: (Point<S>, S))
    ensures
        arc.0.is_plain(),
        is_arc_geometry(start, end, tangent_start, tangent_end, g1_start, g1_end, arc),
{
    let chord = end.minus(start);
    let chord_len = chord.length();
    let sum = start.plus(end);
    let h: S = half();
    let mid = sum.scale(h);
    let normal_chord = Point::new(chord.y.negated(), chord.x).normalized();
    assert(is_difference_of_points(end, start, chord));
    assert(is_midpoint(start, end, mid)) by {
        assert(is_sum_of_points(start, end, sum));
        assert(is_scaled(sum, h, mid));
    }
    assert(is_unit_normal(chord, normal_chord));
    assert(is_chord_frame(start, end, chord_len, mid, normal_chord));
    if g1_start {
        match tangent_start {
            Some(ts) => {
                return tangent_arc(start, start, ts, start, mid, normal_chord, chord_len);
            },
            None => {},
        }
    }
    if g1_end {
        match tangent_end {
            Some(te) => {
                return tangent_arc(end, te, end, start, mid, normal_chord, chord_len);
            },
            None => {},
        }
    }
    half_circle(start, mid, normal_chord, chord_len)
}

impl<S: Scalar> Polygon<S> {
    /// Centre and radius of the half circle over the chord from `start` to
    /// `end`: the radius is half the chord, the centre the chord's midpoint
    /// moved by the radius along the chord's left-hand normal. A chord without
    /// length has no normal: the centre is then the midpoint itself.
    pub fn compute_default_arc(&self, start: Point<S>, end: Point<S>) -> (arc: (Point<S>, S))
        ensures
            arc.0.is_plain(),
            is_default_arc(start, end, arc),
    {
        let dx = end.x.minus(start.x);
        let dy = end.y.minus(start.y);
        let length = norm(dx, dy);
        assert(is_chord_length(start, end, length));
        let radius = length.over(two());
        assert(is_halved(length, radius));
        let mid_x = mean(start.x, end.x);
        let mid_y = mean(start.y, end.y);
        let flat = length.equals(zero());
        assert(finds_no_length(length, flat));
        if flat {
            return (Point::new(mid_x, mid_y), radius);
        }
        let nx = dy.negated().over(length);
        let ny = dx.over(length);
        assert(is_chord_normal(start, end, length, nx, ny));
        let center = Point {
            x: mid_x.plus(nx.times(radius)),
            y: mid_y.plus(ny.times(radius)),
            role: PointRole::Vertex,
            continuity: Continuity::Unset,
        };
        assert(is_advance(mid_x, nx, radius, center.x));
        assert(is_advance(mid_y, ny, radius, center.y));
        assert(is_default_centre(start, end, length, radius, flat, center));
        (center, radius)
    }

    /// Measures the chord from `start` to `end` against the radius asked for.
    /// Without a radius, half the chord is taken.
    pub fn measure_chord(start: Point<S>, end: Point<S>, radius_opt: Option<S>) -> (fit: ChordFit<S>)
        ensures
            fit matches ChordFit::Fits { radius, .. } ==> (radius_opt matches Some(r) ==> radius
                == r),
            is_measured(start, end, radius_opt, fit),
    {
        let dx = end.x.minus(start.x);
        let dy = end.y.minus(start.y);
        let chord_len = norm(dx, dy);
        assert(is_chord_length(start, end, chord_len));
        let no_length = chord_len.equals(zero());
        assert(finds_no_length(chord_len, no_length));
        if no_length {
            return ChordFit::NoChord;
        }
        let radius = match radius_opt {
            Some(r) => r,
            None => chord_len.over(two()),
        };
        assert(is_radius_choice(chord_len, radius_opt, radius)) by {
            if radius_opt is None {
                assert(is_halved(chord_len, radius));
            }
        }
        let half_chord = chord_len.over(two());
        assert(is_halved(chord_len, half_chord));
        let too_small = radius.less(half_chord);
        assert(finds_too_small(chord_len, radius, too_small));
        if too_small {
            return ChordFit::RadiusTooSmall;
        }
        ChordFit::Fits { chord_len, radius }
    }

    /// The arc over the chord from `start` to `end` as it was measured: none
    /// unless the radius fits, else the radius with the centre on the chord's
    /// bisector, the sagitta away from the midpoint, on the side that
    /// `clockwise` picks.
    pub fn arc_over_chord(start: Point<S>, end: Point<S>, fit: ChordFit<S>, clockwise: bool) -> (arc:
        Option<(Point<S>, S)>)
        ensures
            arc is Some <==> fit is Fits,
            arc matches Some(found) ==> found.0.is_plain(),
            arc matches Some(found) ==> (fit matches ChordFit::Fits { radius, .. } ==> found.1
                == radius),
            is_laid_over(start, end, fit, clockwise, arc),
    {
        match fit {
            ChordFit::Fits { chord_len, radius } => {
                let dx = end.x.minus(start.x);
                let dy = end.y.minus(start.y);
                let mid_x = mean(start.x, end.x);
                let mid_y = mean(start.y, end.y);
                let half_chord = chord_len.over(two());
                let h = radius.times(radius).minus(half_chord.times(half_chord)).max(zero()).sqrt();
                assert(is_sagitta(chord_len, radius, h)) by {
                    assert(is_halved(chord_len, half_chord));
                }
                let ux = dy.negated().over(chord_len);
                let uy = dx.over(chord_len);
                assert(is_chord_normal(start, end, chord_len, ux, uy));
                let sign: S = if clockwise {
                    S::from_int(1)
                } else {
                    S::from_int(-1)
                };
                assert(is_side(clockwise, sign));
                let center = Point {
                    x: mid_x.plus(sign.times(ux).times(h)),
                    y: mid_y.plus(sign.times(uy).times(h)),
                    role: PointRole::Vertex,
                    continuity: Continuity::Unset,
                };
                assert(is_offset(mid_x, sign, ux, h, center.x));
                assert(is_offset(mid_y, sign, uy, h, center.y));
                assert(is_arc_centre(start, end, chord_len, radius, clockwise, center));
                Some((center, radius))
            },
            _ => None,
        }
    }

    /// Centre and radius of an arc through `start` and `end`, of the radius
    /// given or, without one, of half the chord. There is no such arc, and the
    /// answer is none, where the chord has no length or the radius is below half
    /// the chord: see [`Polygon::measure_chord`] and [`Polygon::arc_over_chord`].
    pub fn compute_arc_from_chord(
        start: Point<S>,
        end: Point<S>,
        radius_opt: Option<S>,
        clockwise: bool,
    ) -> (arc: Option<(Point<S>, S)>)
        ensures
            arc matches Some(found) ==> found.0.is_plain() && (radius_opt matches Some(r)
                ==> found.1 == r),
            is_arc_from_chord(start, end, radius_opt, clockwise, arc),
    {
        let fit = Self::measure_chord(start, end, radius_opt);
        Self::arc_over_chord(start, end, fit, clockwise)
    }
}

/// `r` may be the cross product of `u` and `v`: `u.x * v.y - u.y * v.x`.
pub open spec fn is_cross<S: Scalar>(u: Point<S>, v: Point<S>, r: S) -> bool {
    exists|m: S, n: S| is_product(u.x, v.y, m) && is_product(u.y, v.x, n) && is_difference(m, n, r)
}

/// The test whether two lines whose directions have the cross product `denom`
/// run parallel may come out as `verdict`: true where the absolute value of
/// `denom` is found below a millionth.
pub open spec fn finds_parallel<S: Scalar>(denom: S, verdict: bool) -> bool {
    exists|size: S, tiny: S|
        is_magnitude(denom, size) && is_millionth(tiny) && finds_less(size, tiny, verdict)
}

/// `r` may be the vector from `q` to `p`, as a plain vertex.
pub open spec fn is_difference_of_points<S: Scalar>(p: Point<S>, q: Point<S>, r: Point<S>) -> bool {
    r.is_plain() && is_difference(p.x, q.x, r.x) && is_difference(p.y, q.y, r.y)
}

/// `r` may be the vector sum of `p` and `q`, as a plain vertex.
pub open spec fn is_sum_of_points<S: Scalar>(p: Point<S>, q: Point<S>, r: Point<S>) -> bool {
    r.is_plain() && is_sum(p.x, q.x, r.x) && is_sum(p.y, q.y, r.y)
}

/// `r` may be `p` with both coordinates multiplied by `s`, as a plain vertex.
pub open spec fn is_scaled<S: Scalar>(p: Point<S>, s: S, r: Point<S>) -> bool {
    r.is_plain() && is_product(p.x, s, r.x) && is_product(p.y, s, r.y)
}

/// `r` may be how far `p` lies from `q`: the length of the vector from `q`
/// to `p`.
pub open spec fn is_separation<S: Scalar>(p: Point<S>, q: Point<S>, r: S) -> bool {
    exists|between: Point<S>| is_difference_of_points(p, q, between) && is_length(between, r)
}

/// `center` may be where the line through `anchor` along `normal` crosses
/// the bisector through `mid` along `normal_chord`, `denom` being the cross
/// product of the two directions, and `radius` how far that is from `anchor`:
/// the centre lies `t` times `normal` from `anchor`, with `t` the cross
/// product of the vector from `anchor` to `mid` and `normal_chord`, over
/// `denom`.
pub open spec fn is_crossing<S: Scalar>(
    anchor: Point<S>,
    mid: Point<S>,
    normal: Point<S>,
    normal_chord: Point<S>,
    denom: S,
    center: Point<S>,
    radius: S,
) -> bool {
    exists|delta: Point<S>, numerator: S, t: S, step: Point<S>|
        is_difference_of_points(mid, anchor, delta) && is_cross(delta, normal_chord, numerator)
            && is_quotient(numerator, denom, t) && is_scaled(normal, t, step) && is_sum_of_points(
            anchor,
            step,
            center,
        ) && is_separation(center, anchor, radius)
}

/// `arc` may be what the search for the circle through `anchor` with its
/// centre on both lines comes to: none where the lines were found parallel,
/// else the crossing and its distance from `anchor`.
pub open spec fn meets_bisector<S: Scalar>(
    anchor: Point<S>,
    mid: Point<S>,
    normal: Point<S>,
    normal_chord: Point<S>,
    arc: Option<(Point<S>, S)>,
) -> bool {
    exists|denom: S| #[trigger]
        is_cross(normal, normal_chord, denom) && match arc {
            None => finds_parallel(denom, true),
            Some(found) => finds_parallel(denom, false) && is_crossing(
                anchor,
                mid,
                normal,
                normal_chord,
                denom,
                found.0,
                found.1,
            ),
        }
}

/// `r` may be the length of the chord from `start` to `end`.
pub open spec fn is_chord_length<S: Scalar>(start: Point<S>, end: Point<S>, r: S) -> bool {
    exists|dx: S, dy: S|
        is_difference(end.x, start.x, dx) && is_difference(end.y, start.y, dy) && is_norm(dx, dy, r)
}

/// The test whether a chord of length `chord_len` has no length may come out
/// as `verdict`: true where it is found equal to zero.
pub open spec fn finds_no_length<S: Scalar>(chord_len: S, verdict: bool) -> bool {
    exists|zero: S| is_zero(zero) && finds_equal(chord_len, zero, verdict)
}

/// `r` may be the radius to lay over a chord of length `chord_len`: the one
/// asked for or, without one, half the chord.
pub open spec fn is_radius_choice<S: Scalar>(chord_len: S, radius_opt: Option<S>, r: S) -> bool {
    match radius_opt {
        Some(asked) => r == asked,
        None => is_halved(chord_len, r),
    }
}

/// The test whether `radius` is too small for a chord of length `chord_len`
/// may come out as `verdict`: true where it is found less than half the chord.
pub open spec fn finds_too_small<S: Scalar>(chord_len: S, radius: S, verdict: bool) -> bool {
    exists|half_chord: S| is_halved(chord_len, half_chord) && finds_less(radius, half_chord, verdict)
}

/// `fit` may be what measuring the chord from `start` to `end` against
/// `radius_opt` comes to: no chord where its length is found equal to zero;
/// else a radius too small where the radius chosen is found below half the
/// chord; else the chord's length with the radius chosen.
pub open spec fn is_measured<S: Scalar>(
    start: Point<S>,
    end: Point<S>,
    radius_opt: Option<S>,
    fit: ChordFit<S>,
) -> bool {
    match fit {
        ChordFit::NoChord => exists|chord_len: S| #[trigger]
            is_chord_length(start, end, chord_len) && finds_no_length(chord_len, true),
        ChordFit::RadiusTooSmall => exists|chord_len: S, radius: S| #[trigger]
            is_chord_length(start, end, chord_len) && finds_no_length(chord_len, false)
                && is_radius_choice(chord_len, radius_opt, radius) && #[trigger] finds_too_small(
                chord_len,
                radius,
                true,
            ),
        ChordFit::Fits { chord_len, radius } => is_chord_length(start, end, chord_len)
            && finds_no_length(chord_len, false) && is_radius_choice(chord_len, radius_opt, radius)
            && finds_too_small(chord_len, radius, false),
    }
}

/// `h` may be the sagitta of an arc of `radius` over a chord of length
/// `chord_len`: the square root of the radius squared less half the chord
/// squared, or of zero where that difference is below zero.
pub open spec fn is_sagitta<S: Scalar>(chord_len: S, radius: S, h: S) -> bool {
    exists|half_chord: S, rr: S, hh: S, gap: S, zero: S, held: S|
        is_halved(chord_len, half_chord) && is_product(radius, radius, rr) && is_product(
            half_chord,
            half_chord,
            hh,
        ) && is_difference(rr, hh, gap) && is_zero(zero) && is_larger(gap, zero, held) && is_root(
            held,
            h,
        )
}

/// `(ux, uy)` may be the unit normal of the chord from `start` to `end`, of
/// length `chord_len`: `(-dy, dx)` over the length.
pub open spec fn is_chord_normal<S: Scalar>(
    start: Point<S>,
    end: Point<S>,
    chord_len: S,
    ux: S,
    uy: S,
) -> bool {
    exists|dx: S, dy: S, turned: S|
        is_difference(end.x, start.x, dx) && is_difference(end.y, start.y, dy) && is_negation(
            dy,
            turned,
        ) && is_quotient(turned, chord_len, ux) && is_quotient(dx, chord_len, uy)
}

/// `sign` may be what stands for the side that `clockwise` picks: one, or
/// minus one.
pub open spec fn is_side<S: Scalar>(clockwise: bool, sign: S) -> bool {
    if clockwise {
        is_integer(1, sign)
    } else {
        is_integer(-1i32, sign)
    }
}

/// `r` may be `mid + sign * u * h`.
pub open spec fn is_offset<S: Scalar>(mid: S, sign: S, u: S, h: S, r: S) -> bool {
    exists|signed: S, moved: S|
        is_product(sign, u, signed) && is_product(signed, h, moved) && is_sum(mid, moved, r)
}

/// `center` may be the centre of the arc of `radius` over the chord from
/// `start` to `end`, of length `chord_len`: the chord's midpoint moved by the
/// sagitta along the chord's unit normal, to the side that `clockwise` picks.
pub open spec fn is_arc_centre<S: Scalar>(
    start: Point<S>,
    end: Point<S>,
    chord_len: S,
    radius: S,
    clockwise: bool,
    center: Point<S>,
) -> bool {
    center.is_plain() && exists|mid_x: S, mid_y: S, h: S, ux: S, uy: S, sign: S|
        is_mean(start.x, end.x, mid_x) && is_mean(start.y, end.y, mid_y) && is_sagitta(
            chord_len,
            radius,
            h,
        ) && is_chord_normal(start, end, chord_len, ux, uy) && is_side(clockwise, sign)
            && is_offset(mid_x, sign, ux, h, center.x) && is_offset(mid_y, sign, uy, h, center.y)
}

/// `arc` may be the arc over the chord from `start` to `end` as `fit`
/// measured it: none unless the radius fits, else that radius about the arc's
/// centre.
pub open spec fn is_laid_over<S: Scalar>(
    start: Point<S>,
    end: Point<S>,
    fit: ChordFit<S>,
    clockwise: bool,
    arc: Option<(Point<S>, S)>,
) -> bool {
    match fit {
        ChordFit::Fits { chord_len, radius } => arc matches Some(found) && found.1 == radius
            && is_arc_centre(start, end, chord_len, radius, clockwise, found.0),
        _ => arc is None,
    }
}

/// `arc` may be what `compute_arc_from_chord` answers: the arc laid over the
/// chord as some measuring of it against `radius_opt` came out. So there is
/// no arc exactly where the chord's length is found equal to zero or the
/// radius chosen is found below half the chord.
pub open spec fn is_arc_from_chord<S: Scalar>(
    start: Point<S>,
    end: Point<S>,
    radius_opt: Option<S>,
    clockwise: bool,
    arc: Option<(Point<S>, S)>,
) -> bool {
    exists|fit: ChordFit<S>| #[trigger]
        is_measured(start, end, radius_opt, fit) && is_laid_over(start, end, fit, clockwise, arc)
}

/// `arc` may be the half circle over a chord of length `chord_len` from
/// `start`, with midpoint `mid`, on the side of `normal`: its centre is the
/// midpoint moved half the chord along the normal, its radius how far the
/// centre lies from `start`.
pub open spec fn is_half_circle<S: Scalar>(
    start: Point<S>,
    mid: Point<S>,
    normal: Point<S>,
    chord_len: S,
    arc: (Point<S>, S),
) -> bool {
    exists|reach: S, step: Point<S>|
        is_halved(chord_len, reach) && #[trigger] is_scaled(normal, reach, step)
            && is_sum_of_points(mid, step, arc.0) && is_separation(arc.0, start, arc.1)
}

/// `r` may be `p` turned a quarter turn, as a plain vertex: `(-p.y, p.x)`.
pub open spec fn is_quarter_turn<S: Scalar>(p: Point<S>, r: Point<S>) -> bool {
    r.is_plain() && is_negation(p.y, r.x) && r.y == p.x
}

/// `normal` may be the normal of the tangent that runs from `from` to
/// `toward`: the unit vector along it, turned a quarter turn.
pub open spec fn is_tangent_normal<S: Scalar>(toward: Point<S>, from: Point<S>, normal: Point<S>) -> bool {
    exists|tangent: Point<S>, tangent_dir: Point<S>|
        is_difference_of_points(toward, from, tangent) && #[trigger] is_unit(tangent, tangent_dir)
            && is_quarter_turn(tangent_dir, normal)
}

/// `arc` may be the arc that a tangent at `anchor`, running from `from` to
/// `toward`, asks for: where the tangent's normal through `anchor` is found to
/// cross the chord's bisector, the crossing and its distance from `anchor`;
/// where the two are found parallel, the half circle.
pub open spec fn is_tangent_arc<S: Scalar>(
    anchor: Point<S>,
    toward: Point<S>,
    from: Point<S>,
    start: Point<S>,
    mid: Point<S>,
    normal_chord: Point<S>,
    chord_len: S,
    arc: (Point<S>, S),
) -> bool {
    exists|normal: Point<S>, met: Option<(Point<S>, S)>|
        is_tangent_normal(toward, from, normal) && #[trigger] meets_bisector(
            anchor,
            mid,
            normal,
            normal_chord,
            met,
        ) && match met {
            Some(found) => arc == found,
            None => is_half_circle(start, mid, normal_chord, chord_len, arc),
        }
}

/// `mid` may be the midpoint of `start` and `end`: their sum times one half.
pub open spec fn is_midpoint<S: Scalar>(start: Point<S>, end: Point<S>, mid: Point<S>) -> bool {
    exists|sum: Point<S>, h: S|
        is_sum_of_points(start, end, sum) && is_half(h) && #[trigger] is_scaled(sum, h, mid)
}

/// `normal` may be the unit left-hand normal of the vector `chord`: the
/// unit vector along `(-chord.y, chord.x)`.
pub open spec fn is_unit_normal<S: Scalar>(chord: Point<S>, normal: Point<S>) -> bool {
    exists|turned: Point<S>| is_quarter_turn(chord, turned) && #[trigger] is_unit(turned, normal)
}

/// `chord_len`, `mid` and `normal_chord` may be the length, the midpoint and
/// the unit left-hand normal of the chord from `start` to `end`.
pub open spec fn is_chord_frame<S: Scalar>(
    start: Point<S>,
    end: Point<S>,
    chord_len: S,
    mid: Point<S>,
    normal_chord: Point<S>,
) -> bool {
    is_midpoint(start, end, mid) && exists|chord: Point<S>| #[trigger]
        is_difference_of_points(end, start, chord) && is_length(chord, chord_len)
            && is_unit_normal(chord, normal_chord)
}

/// `arc` may be the centre and radius of the arc over the chord from
/// `start` to `end`. Where `g1_start` is set and `tangent_start` is given, it
/// is the arc that the tangent at `start`, running from `tangent_start` to
/// `start`, asks for; else, where `g1_end` is set and `tangent_end` is given,
/// the arc that the tangent at `end`, running from `end` to `tangent_end`,
/// asks for; else the half circle on the left of the chord.
pub open spec fn is_arc_geometry<S: Scalar>(
    start: Point<S>,
    end: Point<S>,
    tangent_start: Option<Point<S>>,
    tangent_end: Option<Point<S>>,
    g1_start: bool,
    g1_end: bool,
    arc: (Point<S>, S),
) -> bool {
    exists|chord_len: S, mid: Point<S>, normal_chord: Point<S>| #[trigger]
        is_chord_frame(start, end, chord_len, mid, normal_chord) && if g1_start
            && tangent_start is Some {
            is_tangent_arc(
                start,
                start,
                tangent_start->Some_0,
                start,
                mid,
                normal_chord,
                chord_len,
                arc,
            )
        } else if g1_end && tangent_end is Some {
            is_tangent_arc(end, tangent_end->Some_0, end, start, mid, normal_chord, chord_len, arc)
        } else {
            is_half_circle(start, mid, normal_chord, chord_len, arc)
        }
}

/// `center` may be the centre of the default arc over the chord from `start`
/// to `end`, of length `length`, with `radius`: the midpoint itself where the
/// chord is `flat`, else the midpoint moved by the radius along the chord's
/// unit normal.
pub open spec fn is_default_centre<S: Scalar>(
    start: Point<S>,
    end: Point<S>,
    length: S,
    radius: S,
    flat: bool,
    center: Point<S>,
) -> bool {
    center.is_plain() && exists|mid_x: S, mid_y: S|
        is_mean(start.x, end.x, mid_x) && is_mean(start.y, end.y, mid_y) && if flat {
            center.x == mid_x && center.y == mid_y
        } else {
            exists|ux: S, uy: S| #[trigger]
                is_chord_normal(start, end, length, ux, uy) && is_advance(
                    mid_x,
                    ux,
                    radius,
                    center.x,
                ) && is_advance(mid_y, uy, radius, center.y)
        }
}

/// `arc` may be the default arc over the chord from `start` to `end`: the
/// radius is half the chord's length; the centre is the chord's midpoint,
/// moved by the radius along the chord's unit normal unless the chord's length
/// is found equal to zero.
pub open spec fn is_default_arc<S: Scalar>(start: Point<S>, end: Point<S>, arc: (Point<S>, S)) -> bool {
    exists|length: S, flat: bool| #[trigger]
        is_chord_length(start, end, length) && is_halved(length, arc.1) && #[trigger]
            finds_no_length(length, flat) && is_default_centre(
            start,
            end,
            length,
            arc.1,
            flat,
            arc.0,
        )
}

} // verus!

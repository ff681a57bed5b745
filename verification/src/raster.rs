//! Straight edges on the pixel grid.
use vstd::prelude::*;
use crate::view::MyPolygonDrawer;

verus! {

/// The distance between `a` and `b`.
pub open spec fn span(a: int, b: int) -> int {
    if a <= b {
        b - a
    } else {
        a - b
    }
}

/// How far `at` has come from `from` on the way to `to`.
pub open spec fn progress(from: int, to: int, at: int) -> int {
    if from < to {
        at - from
    } else {
        from - at
    }
}

/// The larger of `a` and `b`.
pub open spec fn larger(a: int, b: int) -> int {
    if a >= b {
        a
    } else {
        b
    }
}

/// `pixel` is the `k`-th pixel of the line from `start` to `end`: it lies `k`
/// steps along the longer axis, between the two ends on the other axis, and so
/// close to the ideal line that no other pixel of its row or column (across the
/// longer axis) is closer: twice its deviation, measured across the longer axis
/// and scaled by the longer span, does not exceed that span.
pub open spec fn is_line_pixel(start: (i32, i32), end: (i32, i32), k: int, pixel: (i32, i32)) -> bool {
    let dx = span(start.0 as int, end.0 as int);
    let dy = span(start.1 as int, end.1 as int);
    let ox = progress(start.0 as int, end.0 as int, pixel.0 as int);
    let oy = progress(start.1 as int, end.1 as int, pixel.1 as int);
    &&& 0 <= ox <= dx
    &&& 0 <= oy <= dy
    &&& if dx >= dy {
        ox == k
    } else {
        oy == k
    }
    &&& -larger(dx, dy) <= 2 * (oy * dx - ox * dy) <= larger(dx, dy)
}

/// The bounds within which the deviation `d` of the current pixel stays while
/// the line is walked.
spec fn deviation_bounded(dx: int, dy: int, d: int) -> bool {
    if dx >= dy {
        dx > 0 ==> dy - 2 * dx < 2 * d < dx && -dx <= 2 * d
    } else {
        -dy < 2 * d < 2 * dy - dx && 2 * d <= dy
    }
}

impl MyPolygonDrawer {
    /// The pixels of the straight line from `start` to `end`, in order, both
    /// ends included: one pixel for each step along the longer axis, each the
    /// nearest to the ideal line.
    pub fn bresenham_line(start: (i32, i32), end: (i32, i32)) -> (pixels: Vec<(i32, i32)>)
        ensures
            pixels@.len() == larger(
                span(start.0 as int, end.0 as int),
                span(start.1 as int, end.1 as int),
            ) + 1,
            pixels@[0] == start,
            pixels@.last() == end,
            forall|k: int|
                0 <= k < pixels@.len() ==> is_line_pixel(start, end, k, #[trigger] pixels@[k]),
    {
        let x1: i64 = end.0 as i64;
        let y1: i64 = end.1 as i64;
        let mut x0: i64 = start.0 as i64;
        let mut y0: i64 = start.1 as i64;
        let dx: i64 = if x0 < x1 {
            x1 - x0
        } else {
            x0 - x1
        };
        let dy: i64 = if y0 < y1 {
            y1 - y0
        } else {
            y0 - y1
        };
        let sx: i64 = if x0 < x1 {
            1
        } else {
            -1
        };
        let sy: i64 = if y0 < y1 {
            1
        } else {
            -1
        };
        let mut err: i64 = dx - dy;
        let mut pixels: Vec<(i32, i32)> = Vec::new();
        let ghost mut a: int = 0;
        let ghost mut b: int = 0;
        let ghost mut d: int = 0;
        loop
            invariant_except_break
                pixels@.len() == (if dx >= dy {
                    a
                } else {
                    b
                }),
            invariant
                x1 == end.0,
                y1 == end.1,
                dx == span(start.0 as int, end.0 as int),
                dy == span(start.1 as int, end.1 as int),
                sx == (if start.0 < end.0 {
                    1i64
                } else {
                    -1i64
                }),
                sy == (if start.1 < end.1 {
                    1i64
                } else {
                    -1i64
                }),
                0 <= a <= dx,
                0 <= b <= dy,
                a == progress(start.0 as int, end.0 as int, x0 as int),
                b == progress(start.1 as int, end.1 as int, y0 as int),
                d == b * dx - a * dy,
                err == dx - dy + d,
                deviation_bounded(dx as int, dy as int, d),
                forall|k: int|
                    0 <= k < pixels@.len() ==> is_line_pixel(start, end, k, #[trigger] pixels@[k]),
                pixels@.len() > 0 ==> pixels@[0] == start,
                pixels@.len() == 0 ==> a == 0 && b == 0,
            ensures
                pixels@.len() == larger(dx as int, dy as int) + 1,
                pixels@.last() == end,
            decreases (dx - a) + (dy - b),
        {
            pixels.push((x0 as i32, y0 as i32));
            if x0 == x1 && y0 == y1 {
                break;
            }
            proof {
                lemma_not_at_end(dx as int, dy as int, a, b, d);
            }
            let e2: i64 = 2 * err;
            if e2 > -dy {
                proof {
                    lemma_x_step(dx as int, dy as int, a, b, d);
                    d = d - dy;
                    a = a + 1;
                }
                err -= dy;
                x0 += sx;
            }
            if e2 < dx {
                proof {
                    lemma_y_step(dx as int, dy as int, a, b, d, e2 as int > -dy);
                    d = d + dx;
                    b = b + 1;
                }
                err += dx;
                y0 += sy;
            }
        }
        pixels
    }
}

/// Before the last pixel, the walk has room left along the longer axis, and
/// the step along that axis is due.
proof fn lemma_not_at_end(dx: int, dy: int, a: int, b: int, d: int)
    requires
        0 <= a <= dx,
        0 <= b <= dy,
        !(a == dx && b == dy),
        d == b * dx - a * dy,
        deviation_bounded(dx, dy, d),
    ensures
        dx >= dy ==> a < dx && 2 * (dx - dy + d) > -dy,
        dx < dy ==> b < dy && 2 * (dx - dy + d) < dx,
{
    if dx >= dy {
        if a == dx {
            assert(false) by (nonlinear_arith)
                requires
                    d == b * dx - dx * dy,
                    0 <= b < dy,
                    dx >= dy,
                    -dx <= 2 * d,
            ;
        }
    } else {
        if b == dy {
            assert(false) by (nonlinear_arith)
                requires
                    d == dy * dx - a * dy,
                    0 <= a < dx,
                    dx < dy,
                    2 * d <= dy,
            ;
        }
    }
}

/// A step along `x` that is due stays within the line and keeps the
/// deviation bounded until the step along `y`, if due, is taken.
proof fn lemma_x_step(dx: int, dy: int, a: int, b: int, d: int)
    requires
        0 <= a <= dx,
        0 <= b <= dy,
        !(a == dx && b == dy),
        d == b * dx - a * dy,
        deviation_bounded(dx, dy, d),
        2 * (dx - dy + d) > -dy,
    ensures
        a < dx,
        d - dy == b * dx - (a + 1) * dy,
        2 * (dx - dy + d) >= dx ==> deviation_bounded(dx, dy, d - dy),
{
    lemma_not_at_end(dx, dy, a, b, d);
    if dx < dy && a == dx {
        assert(false) by (nonlinear_arith)
            requires
                d == b * dx - dx * dy,
                0 <= b < dy,
                0 <= dx < dy,
                2 * (dx - dy + d) > -dy,
        ;
    }
    assert(d - dy == b * dx - (a + 1) * dy) by (nonlinear_arith)
        requires
            d == b * dx - a * dy,
    ;
}

/// A step along `y` that is due stays within the line and leaves the
/// deviation bounded, whether or not a step along `x` went before it. Here
/// `a`, `b` and `d` are as they stand after that step along `x`, if it was
/// taken.
proof fn lemma_y_step(dx: int, dy: int, a: int, b: int, d: int, stepped_x: bool)
    requires
        0 <= a <= dx,
        0 <= b <= dy,
        d == b * dx - a * dy,
        stepped_x ==> a >= 1 && deviation_bounded(dx, dy, d + dy) && 2 * (dx - dy + d + dy) > -dy
            && 2 * (dx - dy + d + dy) < dx,
        !stepped_x ==> !(a == dx && b == dy) && deviation_bounded(dx, dy, d) && 2 * (dx - dy + d)
            <= -dy && 2 * (dx - dy + d) < dx,
    ensures
        b < dy,
        d + dx == (b + 1) * dx - a * dy,
        deviation_bounded(dx, dy, d + dx),
{
    if b == dy {
        if stepped_x {
            assert(false) by (nonlinear_arith)
                requires
                    d == dy * dx - a * dy,
                    1 <= a <= dx,
                    0 <= dy,
                    2 * (dx - dy + d + dy) < dx,
            ;
        } else {
            lemma_not_at_end(dx, dy, a, b, d);
            assert(false) by (nonlinear_arith)
                requires
                    d == dy * dx - a * dy,
                    0 <= a < dx,
                    0 <= dy,
                    2 * (dx - dy + d) <= -dy,
            ;
        }
    }
    if !stepped_x {
        lemma_not_at_end(dx, dy, a, b, d);
    }
    assert(d + dx == (b + 1) * dx - a * dy) by (nonlinear_arith)
        requires
            d == b * dx - a * dy,
    ;
}

} // verus!

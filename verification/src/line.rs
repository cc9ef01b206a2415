//! The raster line between two pixels, as a closed form and with its laws.

use vstd::prelude::*;

verus! {

pub open spec fn abs_diff(a: int, b: int) -> int {
    if a < b {
        b - a
    } else {
        a - b
    }
}

/// The coordinate `k` pixels away from `from`, on the side where `to` lies.
pub open spec fn toward(from: int, to: int, k: int) -> int {
    if from < to {
        from + k
    } else {
        from - k
    }
}

/// How far the line has moved along its shorter axis after `k` steps along
/// the longer one: `k * minor / major` rounded to the nearest integer, a
/// tie going to the smaller one.
pub open spec fn minor_offset(k: int, minor: int, major: int) -> int {
    if major <= 0 {
        0
    } else {
        (2 * minor * k + major - 1) / (2 * major)
    }
}

/// The number of steps the line takes: the longer of its two extents.
pub open spec fn line_steps(x1: int, y1: int, x2: int, y2: int) -> int {
    let dx = abs_diff(x1, x2);
    let dy = abs_diff(y1, y2);
    if dx >= dy {
        dx
    } else {
        dy
    }
}

/// The `k`-th pixel of the line from `(x1, y1)` to `(x2, y2)`.
pub open spec fn line_point(x1: int, y1: int, x2: int, y2: int, k: int) -> (int, int) {
    let dx = abs_diff(x1, x2);
    let dy = abs_diff(y1, y2);
    if dx >= dy {
        (toward(x1, x2, k), toward(y1, y2, minor_offset(k, dy, dx)))
    } else {
        (toward(x1, x2, minor_offset(k, dx, dy)), toward(y1, y2, k))
    }
}

/// The pixels of the line from `(x1, y1)` to `(x2, y2)`, in drawing order.
pub open spec fn line_points(x1: int, y1: int, x2: int, y2: int) -> Seq<(int, int)> {
    Seq::new(
        (line_steps(x1, y1, x2, y2) + 1) as nat,
        |k: int| line_point(x1, y1, x2, y2, k),
    )
}

/// `j` is the rounded quotient `minor_offset(k, minor, major)` exactly when
/// `2 * (major * j - minor * k)` lies in `[-major, major)`.
pub proof fn lemma_minor_offset_unique(k: int, j: int, minor: int, major: int)
    requires
        major > 0,
        -major <= 2 * (major * j - minor * k) < major,
    ensures
        j == minor_offset(k, minor, major),
{
    let n = 2 * minor * k + major - 1;
    let b = 2 * major;
    assert(b * j <= n < b * j + b) by (nonlinear_arith)
        requires
            n == 2 * minor * k + major - 1,
            b == 2 * major,
            -major <= 2 * (major * j - minor * k) < major,
    ;
    assert(n == j * b + (n - b * j)) by (nonlinear_arith);
    vstd::arithmetic::div_mod::lemma_fundamental_div_mod_converse(n, b, j, n - b * j);
}

/// The rounded quotient stays within half a step of the exact one.
pub proof fn lemma_minor_offset_close(k: int, minor: int, major: int)
    requires
        major > 0,
    ensures
        -major <= 2 * (major * minor_offset(k, minor, major) - minor * k) < major,
{
    let n = 2 * minor * k + major - 1;
    let b = 2 * major;
    let j = n / b;
    vstd::arithmetic::div_mod::lemma_fundamental_div_mod(n, b);
    assert(0 <= n % b < b) by {
        vstd::arithmetic::div_mod::lemma_mod_bound(n, b);
    }
    assert(-major <= 2 * (major * j - minor * k) < major) by (nonlinear_arith)
        requires
            n == 2 * minor * k + major - 1,
            b == 2 * major,
            n == b * j + n % b,
            0 <= n % b < b,
    ;
}

/// Along the shorter axis the line never moves back, and by at most one
/// pixel per step.
pub proof fn lemma_minor_offset_step(k: int, minor: int, major: int)
    requires
        0 <= minor <= major,
        0 <= k,
    ensures
        minor_offset(k, minor, major) <= minor_offset(k + 1, minor, major) <= minor_offset(
            k,
            minor,
            major,
        ) + 1,
{
    if major > 0 {
        let a = minor_offset(k, minor, major);
        let b = minor_offset(k + 1, minor, major);
        lemma_minor_offset_close(k, minor, major);
        lemma_minor_offset_close(k + 1, minor, major);
        assert(a <= b <= a + 1) by (nonlinear_arith)
            requires
                major > 0,
                0 <= minor <= major,
                -major <= 2 * (major * a - minor * k) < major,
                -major <= 2 * (major * b - minor * (k + 1)) < major,
        ;
    }
}

/// The line starts on its first end point and ends on its second.
pub proof fn lemma_line_end_points(x1: int, y1: int, x2: int, y2: int)
    ensures
        line_point(x1, y1, x2, y2, 0) == (x1, y1),
        line_point(x1, y1, x2, y2, line_steps(x1, y1, x2, y2)) == (x2, y2),
{
    let dx = abs_diff(x1, x2);
    let dy = abs_diff(y1, y2);
    if dx >= dy {
        if dx > 0 {
            lemma_minor_offset_unique(0, 0, dy, dx);
            assert(-dx <= 2 * (dx * dy - dy * dx) < dx) by (nonlinear_arith)
                requires
                    dx > 0,
            ;
            lemma_minor_offset_unique(dx, dy, dy, dx);

        }
    } else {
        lemma_minor_offset_unique(0, 0, dx, dy);
        assert(-dy <= 2 * (dy * dx - dx * dy) < dy) by (nonlinear_arith)
            requires
                dy > 0,
        ;
        lemma_minor_offset_unique(dy, dx, dx, dy);
    }
}

/// The line has no gaps: each pixel is one of the eight neighbours of the
/// pixel before it.
pub proof fn lemma_line_connected(x1: int, y1: int, x2: int, y2: int, k: int)
    requires
        0 <= k < line_steps(x1, y1, x2, y2),
    ensures
        ({
            let p = line_point(x1, y1, x2, y2, k);
            let q = line_point(x1, y1, x2, y2, k + 1);
            &&& p != q
            &&& abs_diff(p.0, q.0) <= 1
            &&& abs_diff(p.1, q.1) <= 1
        }),
{
    let dx = abs_diff(x1, x2);
    let dy = abs_diff(y1, y2);
    if dx >= dy {
        lemma_minor_offset_step(k, dy, dx);
    } else {
        lemma_minor_offset_step(k, dx, dy);
    }
}

/// A horizontal line is the run of pixels between its end points.
pub proof fn lemma_line_horizontal(x1: int, x2: int, y: int, k: int)
    requires
        0 <= k <= abs_diff(x1, x2),
    ensures
        line_point(x1, y, x2, y, k) == (toward(x1, x2, k), y),
{
    let dx = abs_diff(x1, x2);
    if dx > 0 {
        assert(-dx <= 2 * (dx * 0 - 0 * k) < dx) by (nonlinear_arith)
            requires
                dx > 0,
        ;
        lemma_minor_offset_unique(k, 0, 0, dx);
    }
}

/// A vertical line is the run of pixels between its end points.
pub proof fn lemma_line_vertical(x: int, y1: int, y2: int, k: int)
    requires
        0 <= k <= abs_diff(y1, y2),
    ensures
        line_point(x, y1, x, y2, k) == (x, toward(y1, y2, k)),
{
    let dy = abs_diff(y1, y2);
    if dy > 0 {
        assert(-dy <= 2 * (dy * 0 - 0 * k) < dy) by (nonlinear_arith)
            requires
                dy > 0,
        ;
        lemma_minor_offset_unique(k, 0, 0, dy);
    }
}

/// A line at 45 degrees moves one pixel along both axes at every step.
pub proof fn lemma_line_diagonal(x1: int, y1: int, x2: int, y2: int, k: int)
    requires
        abs_diff(x1, x2) == abs_diff(y1, y2),
        0 <= k <= abs_diff(x1, x2),
    ensures
        line_point(x1, y1, x2, y2, k) == (toward(x1, x2, k), toward(y1, y2, k)),
{
    let d = abs_diff(x1, x2);
    if d > 0 {
        assert(-d <= 2 * (d * k - d * k) < d) by (nonlinear_arith)
            requires
                d > 0,
        ;
        lemma_minor_offset_unique(k, k, d, d);
    }
}

} // verus!

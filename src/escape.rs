//! Escape-time iteration of the quadratic map `z <- z^2 + c` in fixed point.
use vstd::prelude::*;
use crate::fixed::{descale, within_limit, Coordinate, LIMIT, SCALE};

verus! {

/// `|z|^2` at which an orbit counts as escaped: `(2.0)^2`, in squared fixed-point steps.
pub const ESCAPE_RADIUS_SQ: i64 = 1125899906842624;

/// Magnitude that no orbit component exceeds while it is being iterated.
pub const ORBIT_BOUND: i64 = 1500000000;

/// `|z|^2 <= 4`.
pub open spec fn inside(zx: int, zy: int) -> bool {
    zx * zx + zy * zy <= ESCAPE_RADIUS_SQ
}

/// Real part of `z^2 + c`.
pub open spec fn next_x(zx: int, zy: int, cx: int) -> int {
    (zx * zx - zy * zy) / (SCALE as int) + cx
}

/// Imaginary part of `z^2 + c`.
pub open spec fn next_y(zx: int, zy: int, cy: int) -> int {
    (2 * zx * zy) / (SCALE as int) + cy
}

/// How many steps of `z <- z^2 + c` are taken from `z`, at most `budget`,
/// before `|z|^2 > 4`.
pub open spec fn escape_time(zx: int, zy: int, cx: int, cy: int, budget: nat) -> nat
    decreases budget,
{
    if budget == 0 || !inside(zx, zy) {
        0
    } else {
        1 + escape_time(next_x(zx, zy, cx), next_y(zx, zy, cy), cx, cy, (budget - 1) as nat)
    }
}

proof fn lemma_escape_time_bounded(zx: int, zy: int, cx: int, cy: int, budget: nat)
    ensures
        escape_time(zx, zy, cx, cy, budget) <= budget,
    decreases budget,
{
    if budget > 0 && inside(zx, zy) {
        lemma_escape_time_bounded(
            next_x(zx, zy, cx),
            next_y(zx, zy, cy),
            cx,
            cy,
            (budget - 1) as nat,
        );
    }
}

/// One step from a point inside the escape radius stays within `ORBIT_BOUND`.
proof fn lemma_step_bounded(zx: int, zy: int, cx: int, cy: int)
    requires
        inside(zx, zy),
        within_limit(cx),
        within_limit(cy),
    ensures
        -ORBIT_BOUND <= next_x(zx, zy, cx) <= ORBIT_BOUND,
        -ORBIT_BOUND <= next_y(zx, zy, cy) <= ORBIT_BOUND,
        -33554432 <= zx <= 33554432,
        -33554432 <= zy <= 33554432,
{
    assert(-33554432 <= zx <= 33554432) by (nonlinear_arith)
        requires
            zx * zx + zy * zy <= 1125899906842624,
    ;
    assert(-33554432 <= zy <= 33554432) by (nonlinear_arith)
        requires
            zx * zx + zy * zy <= 1125899906842624,
    ;
    let a = zx * zx - zy * zy;
    let b = 2 * zx * zy;
    assert(-1125899906842624 <= a <= 1125899906842624) by (nonlinear_arith)
        requires
            zx * zx + zy * zy <= 1125899906842624,
            a == zx * zx - zy * zy,
    ;
    assert(-2251799813685248 <= b <= 2251799813685248) by (nonlinear_arith)
        requires
            -33554432 <= zx <= 33554432,
            -33554432 <= zy <= 33554432,
            b == 2 * zx * zy,
    ;
    assert(-67108864 <= a / 16777216 <= 67108864) by (nonlinear_arith)
        requires
            -1125899906842624 <= a <= 1125899906842624,
    ;
    assert(-134217728 <= b / 16777216 <= 134217728) by (nonlinear_arith)
        requires
            -2251799813685248 <= b <= 2251799813685248,
    ;
}

proof fn lemma_square_bounded(v: int)
    requires
        -ORBIT_BOUND <= v <= ORBIT_BOUND,
    ensures
        0 <= v * v <= 2250000000000000000,
{
    assert(0 <= v * v <= 2250000000000000000) by (nonlinear_arith)
        requires
            -1500000000 <= v <= 1500000000,
    ;
}

/// Counts the steps of `z <- z^2 + c`, starting from `z`, before `|z|^2`
/// exceeds 4, stopping at `budget`: `budget` means the orbit never escaped.
pub fn iterate(z: Coordinate, c: Coordinate, budget: u32) -> (n: u32)
    requires
        z.in_limits(),
        c.in_limits(),
    ensures
        n == escape_time(z.x as int, z.y as int, c.x as int, c.y as int, budget as nat),
        n <= budget,
{
    let mut zx: i64 = z.x;
    let mut zy: i64 = z.y;
    let mut n: u32 = 0;
    proof {
        lemma_escape_time_bounded(z.x as int, z.y as int, c.x as int, c.y as int, budget as nat);
        lemma_square_bounded(z.x as int);
        lemma_square_bounded(z.y as int);
    }
    while n < budget && zx * zx + zy * zy <= ESCAPE_RADIUS_SQ
        invariant
            n <= budget,
            -ORBIT_BOUND <= zx <= ORBIT_BOUND,
            -ORBIT_BOUND <= zy <= ORBIT_BOUND,
            0 <= zx * zx <= 2250000000000000000,
            0 <= zy * zy <= 2250000000000000000,
            c.in_limits(),
            n + escape_time(zx as int, zy as int, c.x as int, c.y as int, (budget - n) as nat)
                == escape_time(z.x as int, z.y as int, c.x as int, c.y as int, budget as nat),
        decreases budget - n,
    {
        proof {
            lemma_step_bounded(zx as int, zy as int, c.x as int, c.y as int);
        }
        let nx = descale(zx * zx - zy * zy) + c.x;
        let ny = descale(2 * zx * zy) + c.y;
        proof {
            lemma_square_bounded(nx as int);
            lemma_square_bounded(ny as int);
        }
        zx = nx;
        zy = ny;
        n = n + 1;
    }
    n
}

/// A point `c` outside the radius-2 disc escapes the Mandelbrot iteration
/// after exactly one step, for every positive budget.
pub proof fn lemma_far_point_escapes_at_once(cx: int, cy: int, budget: nat)
    requires
        budget >= 1,
        !inside(cx, cy),
    ensures
        escape_time(0, 0, cx, cy, budget) == 1,
{
    assert(next_x(0, 0, cx) == cx);
    assert(next_y(0, 0, cy) == cy);
    assert(escape_time(cx, cy, cx, cy, (budget - 1) as nat) == 0);
}

/// The origin never escapes the Mandelbrot iteration: it uses the whole budget.
pub proof fn lemma_origin_uses_full_budget(budget: nat)
    ensures
        escape_time(0, 0, 0, 0, budget) == budget,
    decreases budget,
{
    if budget > 0 {
        assert(inside(0, 0));
        assert(next_x(0, 0, 0) == 0);
        assert(next_y(0, 0, 0) == 0);
        lemma_origin_uses_full_budget((budget - 1) as nat);
    }
}

} // verus!

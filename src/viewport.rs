//! The viewport: the window of coordinate space shown on the grid, with its
//! pan and zoom motions.
use vstd::prelude::*;
use crate::fixed::{Coordinate, LIMIT, SCALE};

verus! {

/// Pans and zoom-ins move a bound by this fraction of the current span: `1 / RATIO_DIV`.
pub const RATIO_DIV: i64 = 10;

/// Zoom-outs move a bound by `1 / OUT_DIV` of the current span. A zoom-in
/// leaves `1 - 2 / RATIO_DIV = 8/10` of the span, and a tenth of the old span
/// is an eighth of that, so a zoom-out undoes a zoom-in.
pub const OUT_DIV: i64 = 8;

/// One axis of the viewport, `min < max`, in fixed-point steps.
#[derive(Clone, Copy, Debug, PartialEq, Eq, Structural)]
pub struct Range {
    pub min: i64,
    pub max: i64,
}

/// A pan or zoom of the viewport.
#[derive(Clone, Copy, Debug, PartialEq, Eq, Structural)]
pub enum Motion {
    ZoomIn,
    ZoomOut,
    Up,
    Down,
    Left,
    Right,
}

impl Range {
    /// Bounds ordered and within `[-LIMIT, LIMIT]`.
    pub open spec fn wf(self) -> bool {
        -LIMIT <= self.min < self.max <= LIMIT
    }

    pub open spec fn span(self) -> int {
        self.max - self.min
    }

    /// The amount one pan or zoom-in step moves a bound.
    pub open spec fn step(self) -> int {
        self.span() / (RATIO_DIV as int)
    }

    /// The amount one zoom-out moves a bound.
    pub open spec fn out_step(self) -> int {
        self.span() / (OUT_DIV as int)
    }

    /// Each bound moved one step toward the centre.
    pub open spec fn zoomed_in(self) -> Range {
        Range { min: (self.min + self.step()) as i64, max: (self.max - self.step()) as i64 }
    }

    /// Each bound moved one zoom-out step away from the centre, unless that
    /// would carry a bound past the limit: then the range stays as it is.
    pub open spec fn zoomed_out(self) -> Range {
        if -LIMIT <= self.min - self.out_step() && self.max + self.out_step() <= LIMIT {
            Range { min: (self.min - self.out_step()) as i64, max: (self.max + self.out_step()) as i64 }
        } else {
            self
        }
    }

    /// Both bounds moved one step toward smaller values, unless that would
    /// carry `min` past the limit.
    pub open spec fn shifted_back(self) -> Range {
        if -LIMIT <= self.min - self.step() {
            Range { min: (self.min - self.step()) as i64, max: (self.max - self.step()) as i64 }
        } else {
            self
        }
    }

    /// Both bounds moved one step toward larger values, unless that would
    /// carry `max` past the limit.
    pub open spec fn shifted_forward(self) -> Range {
        if self.max + self.step() <= LIMIT {
            Range { min: (self.min + self.step()) as i64, max: (self.max + self.step()) as i64 }
        } else {
            self
        }
    }

    /// The coordinate of cell `idx` of `extent` cells laid across the range.
    pub open spec fn point(self, idx: int, extent: int) -> int {
        self.min + (idx * self.span()) / extent
    }

    proof fn lemma_step_small(self)
        requires
            self.wf(),
        ensures
            0 <= 2 * self.step() < self.span(),
            self.step() <= self.span(),
            0 <= self.out_step() <= self.span(),
    {
    }

    pub fn zoom_in(&mut self)
        requires
            old(self).wf(),
        ensures
            *final(self) == old(self).zoomed_in(),
            final(self).wf(),
    {
        proof {
            self.lemma_step_small();
        }
        let d = (self.max - self.min) / RATIO_DIV;
        self.min = self.min + d;
        self.max = self.max - d;
    }

    pub fn zoom_out(&mut self)
        requires
            old(self).wf(),
        ensures
            *final(self) == old(self).zoomed_out(),
            final(self).wf(),
    {
        proof {
            self.lemma_step_small();
        }
        let d = (self.max - self.min) / OUT_DIV;
        if -LIMIT <= self.min - d && self.max + d <= LIMIT {
            self.min = self.min - d;
            self.max = self.max + d;
        }
    }

    pub fn shift_back(&mut self)
        requires
            old(self).wf(),
        ensures
            *final(self) == old(self).shifted_back(),
            final(self).wf(),
    {
        proof {
            self.lemma_step_small();
        }
        let d = (self.max - self.min) / RATIO_DIV;
        if -LIMIT <= self.min - d {
            self.min = self.min - d;
            self.max = self.max - d;
        }
    }

    pub fn shift_forward(&mut self)
        requires
            old(self).wf(),
        ensures
            *final(self) == old(self).shifted_forward(),
            final(self).wf(),
    {
        proof {
            self.lemma_step_small();
        }
        let d = (self.max - self.min) / RATIO_DIV;
        if self.max + d <= LIMIT {
            self.min = self.min + d;
            self.max = self.max + d;
        }
    }

    /// The coordinate of cell `idx` of `extent`: `min + idx * span / extent`.
    pub fn point_at(&self, idx: u16, extent: u16) -> (r: i64)
        requires
            self.wf(),
            idx < extent,
        ensures
            r == self.point(idx as int, extent as int),
            self.min <= r < self.max,
    {
        let span = self.max - self.min;
        proof {
            assert(0 <= idx as int * span as int <= 65535 * 2147483648) by (nonlinear_arith)
                requires
                    0 <= idx <= 65535,
                    0 < span <= 2147483648,
            ;
        }
        let p = idx as i64 * span;
        proof {
            assert(p as int / (extent as int) < span as int) by (nonlinear_arith)
                requires
                    p == idx as int * span as int,
                    idx < extent,
                    0 < span,
                    0 <= p,
            ;
        }
        self.min + p / extent as i64
    }
}

/// The range a fresh viewport starts with on each axis: `[-2, 2]`.
pub open spec fn is_home_range(r: Range) -> bool {
    r.min == -2 * SCALE && r.max == 2 * SCALE
}

/// The range on the x axis after `m`: only zooms and horizontal moves touch it.
pub open spec fn moved_x(m: Motion, x: Range) -> Range {
    match m {
        Motion::ZoomIn => x.zoomed_in(),
        Motion::ZoomOut => x.zoomed_out(),
        Motion::Left => x.shifted_back(),
        Motion::Right => x.shifted_forward(),
        _ => x,
    }
}

/// The range on the y axis after `m`: only zooms and vertical moves touch it.
/// Rows grow downward with `y`, so moving up shows smaller `y`.
pub open spec fn moved_y(m: Motion, y: Range) -> Range {
    match m {
        Motion::ZoomIn => y.zoomed_in(),
        Motion::ZoomOut => y.zoomed_out(),
        Motion::Up => y.shifted_back(),
        Motion::Down => y.shifted_forward(),
        _ => y,
    }
}

/// Both ranges after the motions of `ms`, in order.
pub open spec fn moved_all(ms: Seq<Motion>, x: Range, y: Range) -> (Range, Range)
    decreases ms.len(),
{
    if ms.len() == 0 {
        (x, y)
    } else {
        moved_all(ms.drop_first(), moved_x(ms[0], x), moved_y(ms[0], y))
    }
}

/// `m` applied `k` times to both ranges.
pub open spec fn repeated(m: Motion, k: nat, x: Range, y: Range) -> (Range, Range)
    decreases k,
{
    if k == 0 {
        (x, y)
    } else {
        repeated(m, (k - 1) as nat, moved_x(m, x), moved_y(m, y))
    }
}

proof fn lemma_motion_keeps_wf(m: Motion, r: Range)
    requires
        r.wf(),
    ensures
        moved_x(m, r).wf(),
        moved_y(m, r).wf(),
{
    r.lemma_step_small();
}

/// Whatever pans and zooms are made, both axes keep `min < max` (and stay
/// within the coordinate limit).
pub proof fn lemma_motions_keep_ranges_ordered(ms: Seq<Motion>, x: Range, y: Range)
    requires
        x.wf(),
        y.wf(),
    ensures
        moved_all(ms, x, y).0.min < moved_all(ms, x, y).0.max,
        moved_all(ms, x, y).1.min < moved_all(ms, x, y).1.max,
        moved_all(ms, x, y).0.wf(),
        moved_all(ms, x, y).1.wf(),
    decreases ms.len(),
{
    if ms.len() > 0 {
        lemma_motion_keeps_wf(ms[0], x);
        lemma_motion_keeps_wf(ms[0], y);
        lemma_motions_keep_ranges_ordered(ms.drop_first(), moved_x(ms[0], x), moved_y(ms[0], y));
    }
}

/// How far a bound may end up from where it started after `k` zoom-ins and
/// then `k` zoom-outs, in fixed-point steps: each pair may lose a rounding step,
/// and a later zoom-out widens what earlier ones lost by a quarter.
pub open spec fn zoom_slack(k: nat) -> nat
    decreases k,
{
    if k == 0 {
        0
    } else {
        zoom_slack((k - 1) as nat) + (9 + 2 * zoom_slack((k - 1) as nat)) / 8
    }
}

/// `r` zoomed in `k` times.
pub open spec fn zoomed_in_times(r: Range, k: nat) -> Range
    decreases k,
{
    if k == 0 {
        r
    } else {
        zoomed_in_times(r.zoomed_in(), (k - 1) as nat)
    }
}

/// `r` zoomed out `k` times.
pub open spec fn zoomed_out_times(r: Range, k: nat) -> Range
    decreases k,
{
    if k == 0 {
        r
    } else {
        zoomed_out_times(r.zoomed_out(), (k - 1) as nat)
    }
}

proof fn lemma_zoom_slack_grows(k: nat)
    ensures
        zoom_slack(k) <= zoom_slack(k + 1),
{
}

proof fn lemma_zoomed_out_last(r: Range, k: nat)
    requires
        k >= 1,
    ensures
        zoomed_out_times(r, k) == zoomed_out_times(r, (k - 1) as nat).zoomed_out(),
    decreases k,
{
    if k > 1 {
        lemma_zoomed_out_last(r.zoomed_out(), (k - 1) as nat);
        assert(zoomed_out_times(r, (k - 1) as nat) == zoomed_out_times(r.zoomed_out(), (k - 2) as nat));
    } else {
        assert(zoomed_out_times(r, 0) == r);
        assert(zoomed_out_times(r.zoomed_out(), 0) == r.zoomed_out());
    }
}

/// One zoom-out of a range that is a zoom-in of `r` widened by `e` on each side
/// comes back to `r` widened by `e + (rem + 2e) / 8`, `rem` the span of `r` modulo 10.
proof fn lemma_out_after_in(r: Range, t: Range, e: int, h: int)
    requires
        r.wf(),
        t.wf(),
        0 <= e <= h,
        t.min == r.zoomed_in().min - e,
        t.max == r.zoomed_in().max + e,
        -LIMIT <= r.min - (h + (9 + 2 * h) / 8),
        r.max + (h + (9 + 2 * h) / 8) <= LIMIT,
    ensures
        t.zoomed_out().wf(),
        t.zoomed_out().min + t.zoomed_out().max == r.min + r.max,
        r.min - (h + (9 + 2 * h) / 8) <= t.zoomed_out().min <= r.min,
        r.max <= t.zoomed_out().max <= r.max + (h + (9 + 2 * h) / 8),
{
    let s = r.span();
    let d = r.step();
    let rem = s - 10 * d;
    assert(0 <= rem < 10);
    assert(t.span() == 8 * d + rem + 2 * e);
    let q = (rem + 2 * e) / 8;
    assert(t.out_step() == d + q) by (nonlinear_arith)
        requires
            t.out_step() == t.span() / 8,
            t.span() == 8 * d + rem + 2 * e,
            q == (rem + 2 * e) / 8,
    ;
    assert(q <= (9 + 2 * h) / 8) by (nonlinear_arith)
        requires
            q == (rem + 2 * e) / 8,
            rem <= 9,
            e <= h,
    ;
    assert(q >= 0);
}

proof fn lemma_range_round_trip(r: Range, k: nat)
    requires
        r.wf(),
        -LIMIT <= r.min - zoom_slack(k),
        r.max + zoom_slack(k) <= LIMIT,
    ensures
        ({
            let back = zoomed_out_times(zoomed_in_times(r, k), k);
            &&& back.wf()
            &&& back.min + back.max == r.min + r.max
            &&& r.min - zoom_slack(k) <= back.min <= r.min
            &&& r.max <= back.max <= r.max + zoom_slack(k)
        }),
    decreases k,
{
    if k > 0 {
        let k1 = (k - 1) as nat;
        let r1 = r.zoomed_in();
        r.lemma_step_small();
        lemma_zoom_slack_grows(k1);
        lemma_range_round_trip(r1, k1);
        let t = zoomed_out_times(zoomed_in_times(r1, k1), k1);
        lemma_zoomed_out_last(zoomed_in_times(r, k), k);
        assert(zoomed_in_times(r, k) == zoomed_in_times(r1, k1));
        lemma_out_after_in(r, t, r1.min - t.min, zoom_slack(k1) as int);
    }
}

proof fn lemma_repeated_zoom(m: Motion, k: nat, x: Range, y: Range)
    requires
        m == Motion::ZoomIn || m == Motion::ZoomOut,
    ensures
        m == Motion::ZoomIn ==> repeated(m, k, x, y) == (zoomed_in_times(x, k), zoomed_in_times(y, k)),
        m == Motion::ZoomOut ==> repeated(m, k, x, y) == (zoomed_out_times(x, k), zoomed_out_times(y, k)),
    decreases k,
{
    if k > 0 {
        lemma_repeated_zoom(m, (k - 1) as nat, moved_x(m, x), moved_y(m, y));
    }
}

/// Zooming in `k` times and then out `k` times brings the viewport back: the
/// centre of each axis (`min + max`) exactly, and each bound to within
/// `zoom_slack(k)` fixed-point steps, never inside where it was. One zoom-in
/// and one zoom-out land within one step; five pairs within six. The only
/// condition is room for that slack inside the coordinate limit.
pub proof fn lemma_zoom_round_trip(k: nat, x: Range, y: Range)
    requires
        x.wf(),
        y.wf(),
        -LIMIT <= x.min - zoom_slack(k),
        x.max + zoom_slack(k) <= LIMIT,
        -LIMIT <= y.min - zoom_slack(k),
        y.max + zoom_slack(k) <= LIMIT,
    ensures
        ({
            let zin = repeated(Motion::ZoomIn, k, x, y);
            let back = repeated(Motion::ZoomOut, k, zin.0, zin.1);
            &&& back.0.min + back.0.max == x.min + x.max
            &&& back.1.min + back.1.max == y.min + y.max
            &&& x.min - zoom_slack(k) <= back.0.min <= x.min
            &&& x.max <= back.0.max <= x.max + zoom_slack(k)
            &&& y.min - zoom_slack(k) <= back.1.min <= y.min
            &&& y.max <= back.1.max <= y.max + zoom_slack(k)
        }),
{
    lemma_repeated_zoom(Motion::ZoomIn, k, x, y);
    let zin = repeated(Motion::ZoomIn, k, x, y);
    lemma_repeated_zoom(Motion::ZoomOut, k, zin.0, zin.1);
    lemma_range_round_trip(x, k);
    lemma_range_round_trip(y, k);
}

/// One zoom-in followed by one zoom-out: each bound back within one step.
pub proof fn lemma_zoom_in_then_out(x: Range, y: Range)
    requires
        x.wf(),
        y.wf(),
        -LIMIT < x.min,
        x.max < LIMIT,
        -LIMIT < y.min,
        y.max < LIMIT,
    ensures
        ({
            let back = moved_all(seq![Motion::ZoomIn, Motion::ZoomOut], x, y);
            &&& back.0.min + back.0.max == x.min + x.max
            &&& back.1.min + back.1.max == y.min + y.max
            &&& x.min - 1 <= back.0.min <= x.min
            &&& y.min - 1 <= back.1.min <= y.min
        }),
{
    assert(zoom_slack(1) == 1) by {
        reveal_with_fuel(zoom_slack, 2);
    }
    lemma_zoom_round_trip(1, x, y);
    lemma_repeated_zoom(Motion::ZoomIn, 1, x, y);
    let zin = repeated(Motion::ZoomIn, 1, x, y);
    lemma_repeated_zoom(Motion::ZoomOut, 1, zin.0, zin.1);
    let ms = seq![Motion::ZoomIn, Motion::ZoomOut];
    assert(ms.drop_first() =~= seq![Motion::ZoomOut]);
    assert(seq![Motion::ZoomOut].drop_first() =~= Seq::<Motion>::empty());
    let x1 = moved_x(Motion::ZoomIn, x);
    let y1 = moved_y(Motion::ZoomIn, y);
    assert(moved_all(seq![Motion::ZoomOut], x1, y1) == moved_all(
        Seq::<Motion>::empty(),
        moved_x(Motion::ZoomOut, x1),
        moved_y(Motion::ZoomOut, y1),
    ));
    assert(moved_all(ms, x, y) == moved_all(seq![Motion::ZoomOut], x1, y1));
}

/// A move left followed by a move right gives back the x range exactly
/// (and leaves the y range alone), whenever the move left was taken, that
/// is, did not run into the coordinate limit.
pub proof fn lemma_left_then_right(x: Range, y: Range)
    requires
        x.wf(),
        y.wf(),
        -LIMIT <= x.min - x.step(),
    ensures
        moved_all(seq![Motion::Left, Motion::Right], x, y) == (x, y),
{
    let l = moved_x(Motion::Left, x);
    assert(l.span() == x.span());
    assert(moved_x(Motion::Right, l) == x);
    let ms = seq![Motion::Left, Motion::Right];
    assert(ms.drop_first() =~= seq![Motion::Right]);
    assert(seq![Motion::Right].drop_first() =~= Seq::<Motion>::empty());
    assert(moved_all(Seq::<Motion>::empty(), x, y) == (x, y));
    assert(moved_all(seq![Motion::Right], l, y) == moved_all(
        Seq::<Motion>::empty(),
        moved_x(Motion::Right, l),
        y,
    ));
    assert(moved_all(ms, x, y) == moved_all(seq![Motion::Right], l, y));
}

} // verus!

//! The fractal variants: a viewport over the grid, an iteration budget, and
//! the escape-time rule of each variant.
use vstd::prelude::*;
use crate::escape::{escape_time, iterate};
use crate::fixed::{Coordinate, SCALE};
use crate::glyph::{glyph, glyph_weight, ramp};
use crate::viewport::{is_home_range, moved_x, moved_y, Motion, Range};

verus! {

/// The state every variant shares: the grid's extent, the viewport, and the
/// iteration budget. Cell `(row, col)` shows the point whose `x` comes from
/// `col` across the x range and whose `y` comes from `row` across the y range.
pub struct Fractal {
    rows: u16,
    cols: u16,
    offset_x: Range,
    offset_y: Range,
    max_iterations: u32,
}

impl Fractal {
    pub closed spec fn x_range(self) -> Range {
        self.offset_x
    }

    pub closed spec fn y_range(self) -> Range {
        self.offset_y
    }

    pub closed spec fn row_count(self) -> int {
        self.rows as int
    }

    pub closed spec fn col_count(self) -> int {
        self.cols as int
    }

    pub closed spec fn budget(self) -> nat {
        self.max_iterations as nat
    }

    /// Both ranges ordered and within limits; a positive budget.
    pub open spec fn wf(self) -> bool {
        &&& self.x_range().wf()
        &&& self.y_range().wf()
        &&& self.budget() >= 1
    }

    /// Same grid extent and budget: only the viewport may differ.
    pub open spec fn same_grid(self, other: Fractal) -> bool {
        &&& self.row_count() == other.row_count()
        &&& self.col_count() == other.col_count()
        &&& self.budget() == other.budget()
    }

    /// The `x` of the points in column `col`.
    pub open spec fn cell_x(self, col: int) -> int {
        self.x_range().point(col, self.col_count())
    }

    /// The `y` of the points in row `row`.
    pub open spec fn cell_y(self, row: int) -> int {
        self.y_range().point(row, self.row_count())
    }

    /// A grid of `rows` by `cols` cells over `x` in `[-2, 2]`, `y` in `[-2, 2]`.
    pub fn new(rows: u16, cols: u16, max_iterations: u32) -> (r: Fractal)
        requires
            max_iterations >= 1,
        ensures
            r.wf(),
            r.row_count() == rows,
            r.col_count() == cols,
            r.budget() == max_iterations,
            is_home_range(r.x_range()),
            is_home_range(r.y_range()),
    {
        Fractal {
            rows,
            cols,
            offset_x: Range { min: -2 * SCALE, max: 2 * SCALE },
            offset_y: Range { min: -2 * SCALE, max: 2 * SCALE },
            max_iterations,
        }
    }

    pub fn get_rows(&self) -> (r: u16)
        ensures
            r == self.row_count(),
    {
        self.rows
    }

    pub fn get_cols(&self) -> (r: u16)
        ensures
            r == self.col_count(),
    {
        self.cols
    }

    pub fn max_iterations(&self) -> (r: u32)
        ensures
            r == self.budget(),
    {
        self.max_iterations
    }

    pub fn x_bounds(&self) -> (r: Range)
        ensures
            r == self.x_range(),
    {
        self.offset_x
    }

    pub fn y_bounds(&self) -> (r: Range)
        ensures
            r == self.y_range(),
    {
        self.offset_y
    }

    /// Pans or zooms the viewport by one step.
    pub fn apply(&mut self, m: Motion)
        requires
            old(self).wf(),
        ensures
            final(self).wf(),
            final(self).x_range() == moved_x(m, old(self).x_range()),
            final(self).y_range() == moved_y(m, old(self).y_range()),
            final(self).same_grid(*old(self)),
    {
        match m {
            Motion::ZoomIn => {
                self.offset_x.zoom_in();
                self.offset_y.zoom_in();
            },
            Motion::ZoomOut => {
                self.offset_x.zoom_out();
                self.offset_y.zoom_out();
            },
            Motion::Up => self.offset_y.shift_back(),
            Motion::Down => self.offset_y.shift_forward(),
            Motion::Left => self.offset_x.shift_back(),
            Motion::Right => self.offset_x.shift_forward(),
        }
    }

    /// The point that cell `(row, col)` shows.
    pub fn cell_point(&self, row: u16, col: u16) -> (p: Coordinate)
        requires
            self.wf(),
            row < self.row_count(),
            col < self.col_count(),
        ensures
            p.x == self.cell_x(col as int),
            p.y == self.cell_y(row as int),
            p.in_limits(),
    {
        Coordinate { x: self.offset_x.point_at(col, self.cols), y: self.offset_y.point_at(row, self.rows) }
    }
}

/// `after` is the viewport of `before` moved by `m`; grid and budget unchanged.
pub open spec fn moved_frame(m: Motion, before: Fractal, after: Fractal) -> bool {
    &&& after.wf()
    &&& after.x_range() == moved_x(m, before.x_range())
    &&& after.y_range() == moved_y(m, before.y_range())
    &&& after.same_grid(before)
}

/// A variant of the escape-time family, with the viewport it owns.
pub trait FractalTrait: Sized {
    /// The shared state: grid, viewport and budget.
    spec fn frame(&self) -> Fractal;

    /// The variant's state is consistent.
    spec fn wf(&self) -> bool;

    /// The escape count of the point `(x, y)` under this variant.
    spec fn escape_at(&self, x: int, y: int) -> nat;

    /// `self` and `other` iterate by the same rule: the parameters fixed at
    /// construction (a Julia set's `c`) are equal.
    spec fn same_variant(&self, other: &Self) -> bool;

    proof fn lemma_wf(&self)
        requires
            self.wf(),
        ensures
            self.frame().wf(),
    ;

    /// The escape count of cell `(row, col)`.
    fn escape_cell(&self, row: u16, col: u16) -> (n: u32)
        requires
            self.wf(),
            row < self.frame().row_count(),
            col < self.frame().col_count(),
        ensures
            n == self.escape_at(self.frame().cell_x(col as int), self.frame().cell_y(row as int)),
    ;

    fn get_frame(&self) -> (r: &Fractal)
        ensures
            *r == self.frame(),
    ;

    /// Pans or zooms the viewport by one step.
    fn apply(&mut self, m: Motion)
        requires
            old(self).wf(),
        ensures
            final(self).wf(),
            moved_frame(m, old(self).frame(), final(self).frame()),
            forall|x: int, y: int| #[trigger] final(self).escape_at(x, y) == old(self).escape_at(x, y),
            final(self).same_variant(old(self)),
    ;

    /// Escape counts of the whole grid, row by row.
    fn calculate(&self) -> (r: Vec<Vec<u32>>)
        requires
            self.wf(),
        ensures
            r@.len() == self.frame().row_count(),
            forall|i: int| 0 <= i < r@.len() ==> #[trigger] r@[i]@.len() == self.frame().col_count(),
            forall|i: int, j: int|
                0 <= i < r@.len() && 0 <= j < r@[i]@.len() ==> #[trigger] r@[i]@[j] == self.escape_at(self.frame().cell_x(j), self.frame().cell_y(i)),
    {
        proof {
            self.lemma_wf();
        }
        let rows = self.get_frame().get_rows();
        let cols = self.get_frame().get_cols();
        let mut grid: Vec<Vec<u32>> = Vec::new();
        let mut i: u16 = 0;
        while i < rows
            invariant
                self.wf(),
                rows == self.frame().row_count(),
                cols == self.frame().col_count(),
                i <= rows,
                grid@.len() == i,
                forall|a: int| 0 <= a < i ==> #[trigger] grid@[a]@.len() == cols,
                forall|a: int, b: int|
                    0 <= a < i && 0 <= b < cols ==> #[trigger] grid@[a]@[b] == self.escape_at(self.frame().cell_x(b), self.frame().cell_y(a)),
            decreases rows - i,
        {
            let mut line: Vec<u32> = Vec::new();
            let mut j: u16 = 0;
            while j < cols
                invariant
                    self.wf(),
                    rows == self.frame().row_count(),
                    cols == self.frame().col_count(),
                    i < rows,
                    j <= cols,
                    line@.len() == j,
                    forall|b: int| 0 <= b < j ==> #[trigger] line@[b] == self.escape_at(self.frame().cell_x(b), self.frame().cell_y(i as int)),
                decreases cols - j,
            {
                line.push(self.escape_cell(i, j));
                j = j + 1;
            }
            grid.push(line);
            i = i + 1;
        }
        grid
    }

    /// The glyphs of the whole grid, row by row.
    fn render(&self) -> (r: Vec<Vec<char>>)
        requires
            self.wf(),
        ensures
            r@.len() == self.frame().row_count(),
            forall|i: int| 0 <= i < r@.len() ==> #[trigger] r@[i]@.len() == self.frame().col_count(),
            forall|i: int, j: int|
                0 <= i < r@.len() && 0 <= j < r@[i]@.len() ==> #[trigger] r@[i]@[j] == ramp(
                    glyph_weight(self.escape_at(self.frame().cell_x(j), self.frame().cell_y(i)) as int, self.frame().budget() as int) as int,
                ),
    {
        let counts = self.calculate();
        let budget = self.get_frame().max_iterations();
        let mut grid: Vec<Vec<char>> = Vec::new();
        let mut i: usize = 0;
        while i < counts.len()
            invariant
                i <= counts@.len(),
                counts@.len() == self.frame().row_count(),
                budget == self.frame().budget(),
                forall|a: int| 0 <= a < counts@.len() ==> #[trigger] counts@[a]@.len() == self.frame().col_count(),
                forall|a: int, b: int|
                    0 <= a < counts@.len() && 0 <= b < counts@[a]@.len() ==> #[trigger] counts@[a]@[b]
                        == self.escape_at(self.frame().cell_x(b), self.frame().cell_y(a)),
                grid@.len() == i,
                forall|a: int| 0 <= a < i ==> #[trigger] grid@[a]@.len() == self.frame().col_count(),
                forall|a: int, b: int|
                    0 <= a < i && 0 <= b < grid@[a]@.len() ==> #[trigger] grid@[a]@[b] == ramp(
                        glyph_weight(self.escape_at(self.frame().cell_x(b), self.frame().cell_y(a)) as int, budget as int) as int,
                    ),
            decreases counts@.len() - i,
        {
            let row = &counts[i];
            let mut line: Vec<char> = Vec::new();
            let mut j: usize = 0;
            while j < row.len()
                invariant
                    i < counts@.len(),
                    *row == counts@[i as int],
                    j <= row@.len(),
                    line@.len() == j,
                    forall|b: int|
                        0 <= b < row@.len() ==> #[trigger] row@[b] == self.escape_at(self.frame().cell_x(b), self.frame().cell_y(i as int)),
                    forall|b: int|
                        0 <= b < j ==> #[trigger] line@[b] == ramp(
                            glyph_weight(self.escape_at(self.frame().cell_x(b), self.frame().cell_y(i as int)) as int, budget as int) as int,
                        ),
                decreases row@.len() - j,
            {
                line.push(glyph(row[j], budget));
                j = j + 1;
            }
            grid.push(line);
            i = i + 1;
        }
        grid
    }

    fn zoom_in(&mut self)
        requires
            old(self).wf(),
        ensures
            final(self).wf(),
            moved_frame(Motion::ZoomIn, old(self).frame(), final(self).frame()),
            forall|x: int, y: int| #[trigger] final(self).escape_at(x, y) == old(self).escape_at(x, y),
            final(self).same_variant(old(self)),
    {
        self.apply(Motion::ZoomIn)
    }

    fn zoom_out(&mut self)
        requires
            old(self).wf(),
        ensures
            final(self).wf(),
            moved_frame(Motion::ZoomOut, old(self).frame(), final(self).frame()),
            forall|x: int, y: int| #[trigger] final(self).escape_at(x, y) == old(self).escape_at(x, y),
            final(self).same_variant(old(self)),
    {
        self.apply(Motion::ZoomOut)
    }

    fn move_up(&mut self)
        requires
            old(self).wf(),
        ensures
            final(self).wf(),
            moved_frame(Motion::Up, old(self).frame(), final(self).frame()),
            forall|x: int, y: int| #[trigger] final(self).escape_at(x, y) == old(self).escape_at(x, y),
            final(self).same_variant(old(self)),
    {
        self.apply(Motion::Up)
    }

    fn move_down(&mut self)
        requires
            old(self).wf(),
        ensures
            final(self).wf(),
            moved_frame(Motion::Down, old(self).frame(), final(self).frame()),
            forall|x: int, y: int| #[trigger] final(self).escape_at(x, y) == old(self).escape_at(x, y),
            final(self).same_variant(old(self)),
    {
        self.apply(Motion::Down)
    }

    fn move_left(&mut self)
        requires
            old(self).wf(),
        ensures
            final(self).wf(),
            moved_frame(Motion::Left, old(self).frame(), final(self).frame()),
            forall|x: int, y: int| #[trigger] final(self).escape_at(x, y) == old(self).escape_at(x, y),
            final(self).same_variant(old(self)),
    {
        self.apply(Motion::Left)
    }

    fn move_right(&mut self)
        requires
            old(self).wf(),
        ensures
            final(self).wf(),
            moved_frame(Motion::Right, old(self).frame(), final(self).frame()),
            forall|x: int, y: int| #[trigger] final(self).escape_at(x, y) == old(self).escape_at(x, y),
            final(self).same_variant(old(self)),
    {
        self.apply(Motion::Right)
    }
}

/// The Mandelbrot set: each point `c` is iterated from `z = 0`.
pub struct Mandelbrot {
    pub fractal: Fractal,
}

impl Mandelbrot {
    /// A Mandelbrot view of `rows` by `cols` cells over the default viewport.
    pub fn new(rows: u16, cols: u16, max_iterations: u32) -> (r: Mandelbrot)
        requires
            max_iterations >= 1,
        ensures
            r.wf(),
            r.fractal.row_count() == rows,
            r.fractal.col_count() == cols,
            r.fractal.budget() == max_iterations,
            is_home_range(r.fractal.x_range()),
            is_home_range(r.fractal.y_range()),
    {
        Mandelbrot { fractal: Fractal::new(rows, cols, max_iterations) }
    }
}

impl FractalTrait for Mandelbrot {
    open spec fn frame(&self) -> Fractal {
        self.fractal
    }

    open spec fn wf(&self) -> bool {
        self.fractal.wf()
    }

    open spec fn escape_at(&self, x: int, y: int) -> nat {
        escape_time(0, 0, x, y, self.fractal.budget())
    }

    open spec fn same_variant(&self, other: &Self) -> bool {
        true
    }

    proof fn lemma_wf(&self) {
    }

    fn escape_cell(&self, row: u16, col: u16) -> (n: u32) {
        let c = self.fractal.cell_point(row, col);
        iterate(Coordinate { x: 0, y: 0 }, c, self.fractal.max_iterations())
    }

    fn get_frame(&self) -> (r: &Fractal) {
        &self.fractal
    }

    fn apply(&mut self, m: Motion) {
        self.fractal.apply(m);
    }
}

/// A Julia set: each point is iterated as `z` under a fixed parameter `c`.
pub struct Julia {
    fractal: Fractal,
    c: Coordinate,
}

impl Julia {
    /// The fixed parameter of the iteration.
    pub closed spec fn param(self) -> Coordinate {
        self.c
    }

    pub closed spec fn frame_of(self) -> Fractal {
        self.fractal
    }

    /// A Julia view of `rows` by `cols` cells over the default viewport, for
    /// the parameter `c = (x, y)` in fixed-point steps.
    pub fn new(rows: u16, cols: u16, x: i64, y: i64, max_iterations: u32) -> (r: Julia)
        requires
            max_iterations >= 1,
            (Coordinate { x, y }).in_limits(),
        ensures
            r.wf(),
            r.param() == (Coordinate { x, y }),
            r.frame().row_count() == rows,
            r.frame().col_count() == cols,
            r.frame().budget() == max_iterations,
            is_home_range(r.frame().x_range()),
            is_home_range(r.frame().y_range()),
    {
        Julia { fractal: Fractal::new(rows, cols, max_iterations), c: Coordinate { x, y } }
    }

    /// The fixed parameter of the iteration.
    pub fn get_param(&self) -> (r: Coordinate)
        ensures
            r == self.param(),
    {
        self.c
    }
}

impl FractalTrait for Julia {
    open spec fn frame(&self) -> Fractal {
        self.frame_of()
    }

    open spec fn wf(&self) -> bool {
        self.frame_of().wf() && self.param().in_limits()
    }

    open spec fn escape_at(&self, x: int, y: int) -> nat {
        escape_time(x, y, self.param().x as int, self.param().y as int, self.frame_of().budget())
    }

    open spec fn same_variant(&self, other: &Self) -> bool {
        self.param() == other.param()
    }

    proof fn lemma_wf(&self) {
    }

    fn escape_cell(&self, row: u16, col: u16) -> (n: u32) {
        let z = self.fractal.cell_point(row, col);
        iterate(z, self.c, self.fractal.max_iterations())
    }

    fn get_frame(&self) -> (r: &Fractal) {
        &self.fractal
    }

    fn apply(&mut self, m: Motion) {
        self.fractal.apply(m);
    }
}

} // verus!

//! An owned character-cell drawing surface.
//!
//! The canvas models the render target: a `width x height` grid of cells,
//! each holding one glyph and one color pair, together with the currently
//! active color pair. Drawing outside the bounds is silently clipped. A
//! backend owns the task of copying the finished grid to a real terminal.

use vstd::prelude::*;

verus! {

/// A display color of the character-cell backend.
#[derive(Clone, Copy, PartialEq, Eq, Structural, Debug)]
pub enum Color {
    Black,
    Red,
    Green,
    Blue,
    Yellow,
    White,
    Magenta,
}

/// A foreground/background color pair.
#[derive(Clone, Copy, PartialEq, Eq, Structural, Debug)]
pub struct ColorPair {
    pub fg: Color,
    pub bg: Color,
}

/// The color pair drawing starts out with: white on black.
pub open spec fn default_pair() -> ColorPair {
    ColorPair { fg: Color::White, bg: Color::Black }
}

impl ColorPair {
    pub fn new(fg: Color, bg: Color) -> (r: ColorPair)
        ensures
            r == (ColorPair { fg, bg }),
    {
        ColorPair { fg, bg }
    }
}

impl Default for ColorPair {
    fn default() -> (r: ColorPair)
        ensures
            r == default_pair(),
    {
        ColorPair { fg: Color::White, bg: Color::Black }
    }
}

/// One character cell of the surface.
#[derive(Clone, Copy, PartialEq, Eq, Structural, Debug)]
pub struct Cell {
    pub glyph: char,
    pub color: ColorPair,
}

/// The cell an empty or cleared surface holds everywhere.
pub open spec fn blank_cell() -> Cell {
    Cell { glyph: ' ', color: default_pair() }
}

/// The render target: a grid of cells in row-major order plus the active
/// color pair that subsequent drawing uses.
pub struct Canvas {
    pub width: i32,
    pub height: i32,
    pub cells: Vec<Cell>,
    pub active: ColorPair,
}

impl Canvas {
    /// Well-formedness: non-negative dimensions and one cell per grid point.
    pub open spec fn wf(self) -> bool {
        &&& 0 <= self.width
        &&& 0 <= self.height
        &&& self.cells@.len() == self.width * self.height
    }

    /// Whether `(x, y)` lies on the surface.
    pub open spec fn in_bounds(self, x: int, y: int) -> bool {
        0 <= x < self.width && 0 <= y < self.height
    }

    /// The row-major cell index of `(x, y)`.
    pub open spec fn idx(self, x: int, y: int) -> int {
        y * self.width + x
    }

    /// The cell at `(x, y)`.
    pub open spec fn cell_at(self, x: int, y: int) -> Cell {
        self.cells@[self.idx(x, y)]
    }

    /// The dimensions and the active pair, bundled so contracts can say
    /// "everything but the cells is kept".
    pub open spec fn same_frame(self, other: Canvas) -> bool {
        &&& self.width == other.width
        &&& self.height == other.height
        &&& self.active == other.active
    }

    /// A blank surface of the given dimensions.
    pub fn new(width: i32, height: i32) -> (r: Canvas)
        requires
            0 <= width,
            0 <= height,
            width * height <= usize::MAX,
        ensures
            r.wf(),
            r.width == width,
            r.height == height,
            r.active == default_pair(),
            forall|x: int, y: int| r.in_bounds(x, y) ==> r.cell_at(x, y) == blank_cell(),
    {
        let total: usize = (width as usize) * (height as usize);
        let mut cells: Vec<Cell> = Vec::new();
        let mut i: usize = 0;
        while i < total
            invariant
                i <= total,
                total == width * height,
                cells@.len() == i,
                forall|j: int| 0 <= j < i ==> cells@[j] == blank_cell(),
            decreases total - i,
        {
            cells.push(Cell { glyph: ' ', color: ColorPair { fg: Color::White, bg: Color::Black } });
            i = i + 1;
        }
        let r = Canvas { width, height, cells, active: ColorPair { fg: Color::White, bg: Color::Black } };
        proof {
            assert forall|x: int, y: int| r.in_bounds(x, y) implies r.cell_at(x, y) == blank_cell() by {
                lemma_grid_index(x, y, width as int, height as int);
            }
        }
        r
    }

    /// Make `pair` the active color pair; the cells are untouched.
    pub fn set_color_pair(&mut self, pair: ColorPair)
        ensures
            final(self).active == pair,
            final(self).width == old(self).width,
            final(self).height == old(self).height,
            final(self).cells@ == old(self).cells@,
    {
        self.active = pair;
    }

    /// Write glyph `c` at `(x, y)` in the active color pair; out-of-bounds
    /// writes are dropped.
    pub fn draw_cell(&mut self, c: char, x: i32, y: i32)
        requires
            old(self).wf(),
        ensures
            final(self).wf(),
            final(self).same_frame(*old(self)),
            old(self).in_bounds(x as int, y as int) ==> final(self).cells@
                == old(self).cells@.update(
                    old(self).idx(x as int, y as int),
                    (Cell { glyph: c, color: old(self).active }),
                ),
            !old(self).in_bounds(x as int, y as int) ==> final(self).cells@ == old(self).cells@,
    {
        if 0 <= x && x < self.width && 0 <= y && y < self.height {
            let n = self.cells.len();
            proof {
                lemma_grid_index(x as int, y as int, self.width as int, self.height as int);
                assert(y * self.width + x < n);
            }
            let i: usize = (y as usize) * (self.width as usize) + (x as usize);
            let cell = Cell { glyph: c, color: self.active };
            self.cells.set(i, cell);
        }
    }

    /// Reset every cell to the blank glyph in the default colors and leave
    /// the default pair active, as a frame starts.
    pub fn clear(&mut self)
        requires
            old(self).wf(),
        ensures
            final(self).wf(),
            final(self).width == old(self).width,
            final(self).height == old(self).height,
            final(self).active == default_pair(),
            forall|x: int, y: int|
                final(self).in_bounds(x, y) ==> final(self).cell_at(x, y) == blank_cell(),
    {
        self.set_color_pair(ColorPair { fg: Color::White, bg: Color::Black });
        let w = self.width;
        let h = self.height;
        let mut x: i32 = 0;
        while x < w
            invariant
                0 <= x <= w,
                self.wf(),
                self.width == w,
                self.height == h,
                self.active == default_pair(),
                forall|x0: int, y0: int|
                    0 <= x0 < x && 0 <= y0 < h ==> self.cell_at(x0, y0) == blank_cell(),
            decreases w - x,
        {
            let mut y: i32 = 0;
            while y < h
                invariant
                    0 <= x < w,
                    0 <= y <= h,
                    self.wf(),
                    self.width == w,
                    self.height == h,
                    self.active == default_pair(),
                    forall|x0: int, y0: int|
                        0 <= x0 < x && 0 <= y0 < h ==> self.cell_at(x0, y0) == blank_cell(),
                    forall|y0: int| 0 <= y0 < y ==> self.cell_at(x as int, y0) == blank_cell(),
                decreases h - y,
            {
                let ghost prev = *self;
                self.draw_cell(' ', x, y);
                proof {
                    lemma_grid_index(x as int, y as int, w as int, h as int);
                    assert forall|x0: int, y0: int|
                        0 <= x0 < x && 0 <= y0 < h implies self.cell_at(x0, y0) == blank_cell() by {
                        lemma_grid_index(x0, y0, w as int, h as int);
                        lemma_grid_index_injective(x0, y0, x as int, y as int, w as int, h as int);
                        assert(prev.cell_at(x0, y0) == blank_cell());
                        assert(self.cells@[y0 * w + x0] == prev.cells@[y0 * w + x0]);
                    }
                    assert forall|y0: int| 0 <= y0 < y + 1 implies self.cell_at(
                        x as int,
                        y0,
                    ) == blank_cell() by {
                        lemma_grid_index(x as int, y0, w as int, h as int);
                        if y0 < y {
                            lemma_grid_index_injective(x as int, y0, x as int, y as int, w as int, h as int);
                            assert(prev.cell_at(x as int, y0) == blank_cell());
                            assert(self.cells@[y0 * w + x] == prev.cells@[y0 * w + x]);
                        } else {
                            assert(self.cells@[y * w + x] == (Cell { glyph: ' ', color: prev.active }));
                        }
                    }
                }
                y = y + 1;
            }
            x = x + 1;
        }
    }

    /// The number of columns.
    pub fn cols(&self) -> (r: i32)
        ensures
            r == self.width,
    {
        self.width
    }

    /// The number of rows.
    pub fn rows(&self) -> (r: i32)
        ensures
            r == self.height,
    {
        self.height
    }

    /// Read the cell at `(x, y)`.
    pub fn cell(&self, x: i32, y: i32) -> (r: Cell)
        requires
            self.wf(),
            self.in_bounds(x as int, y as int),
        ensures
            r == self.cell_at(x as int, y as int),
    {
        let n = self.cells.len();
        proof {
            lemma_grid_index(x as int, y as int, self.width as int, self.height as int);
            assert(y * self.width + x < n);
        }
        let i: usize = (y as usize) * (self.width as usize) + (x as usize);
        self.cells[i]
    }
}

/// A grid point's row-major index lies inside the cell list.
#[verifier::nonlinear]
pub proof fn lemma_grid_index(x: int, y: int, w: int, h: int)
    requires
        0 <= x < w,
        0 <= y < h,
    ensures
        0 <= y * w + x < w * h,
{
}

/// Distinct grid points have distinct row-major indices.
#[verifier::nonlinear]
pub proof fn lemma_grid_index_injective(x0: int, y0: int, x1: int, y1: int, w: int, h: int)
    requires
        0 <= x0 < w,
        0 <= y0 < h,
        0 <= x1 < w,
        0 <= y1 < h,
        !(x0 == x1 && y0 == y1),
    ensures
        y0 * w + x0 != y1 * w + x1,
{
}

} // verus!

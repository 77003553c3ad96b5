//! Rasterization primitives: Bresenham line drawing and edge-function
//! triangle filling onto a [`crate::canvas::Canvas`].
//!
//! Every contract pins down, cell by cell, which glyph and color each
//! primitive leaves on the surface; drawing outside the surface is clipped.

use vstd::prelude::*;

use crate::canvas::Canvas;
use crate::canvas::Cell;
use crate::canvas::Color;
use crate::canvas::ColorPair;
use crate::canvas::default_pair;
use crate::canvas::lemma_grid_index;
use crate::canvas::lemma_grid_index_injective;
use crate::geometry::IVec2;
use crate::geometry::clamp_to;
use crate::geometry::clip_box;
use crate::geometry::max3;
use crate::geometry::min3;
use crate::geometry::point_in_tri;
use crate::geometry::point_in_tri_spec;
use crate::geometry::tri_bounding_box;

verus! {

/// The absolute value of an integer.
pub open spec fn iabs(a: int) -> int {
    if a < 0 {
        -a
    } else {
        a
    }
}

/// The state `(y, error)` of the low-slope Bresenham walk from `(x0, y0)`
/// toward `(x1, y1)` after `i` steps along the x axis. The error term
/// starts at `2*dy - dx` and accumulates `2*dy` per step, paying `2*dx`
/// whenever it tips positive and the walk takes one step along y.
pub open spec fn bres_low_state(x0: int, y0: int, x1: int, y1: int, i: int) -> (int, int)
    decreases i,
{
    let dx = x1 - x0;
    let rawdy = y1 - y0;
    let yi: int = if rawdy < 0 {
        -1
    } else {
        1
    };
    let dy = iabs(rawdy);
    if i <= 0 {
        (y0, 2 * dy - dx)
    } else {
        let prev = bres_low_state(x0, y0, x1, y1, i - 1);
        if prev.1 > 0 {
            (prev.0 + yi, prev.1 - 2 * dx + 2 * dy)
        } else {
            (prev.0, prev.1 + 2 * dy)
        }
    }
}

/// The y cell the low-slope walk paints at `x = x0 + i`.
pub open spec fn bres_low_y(x0: int, y0: int, x1: int, y1: int, i: int) -> int {
    bres_low_state(x0, y0, x1, y1, i).0
}

/// Whether the low-slope walk from `(x0, y0)` to `(x1, y1)` paints `(x, y)`:
/// one cell per column of the inclusive range, the end column included.
pub open spec fn on_low_segment(x0: int, y0: int, x1: int, y1: int, x: int, y: int) -> bool {
    x0 <= x <= x1 && y == bres_low_y(x0, y0, x1, y1, x - x0)
}

/// A low-slope walk toward a higher (or equal) end row never steps back
/// down: its y sequence is non-decreasing from one column to the next.
pub proof fn lemma_low_walk_monotone(x0: int, y0: int, x1: int, y1: int, i: int)
    requires
        y0 <= y1,
        0 <= i,
    ensures
        bres_low_y(x0, y0, x1, y1, i) <= bres_low_y(x0, y0, x1, y1, i + 1),
{
    let prev = bres_low_state(x0, y0, x1, y1, i);
    if prev.1 > 0 {
        assert(bres_low_state(x0, y0, x1, y1, i + 1).0 == prev.0 + 1);
    } else {
        assert(bres_low_state(x0, y0, x1, y1, i + 1).0 == prev.0);
    }
}

/// The state `(x, error)` of the high-slope Bresenham walk after `i` steps
/// along the y axis; the mirror image of [`bres_low_state`].
pub open spec fn bres_high_state(x0: int, y0: int, x1: int, y1: int, i: int) -> (int, int)
    decreases i,
{
    let dy = y1 - y0;
    let rawdx = x1 - x0;
    let xi: int = if rawdx < 0 {
        -1
    } else {
        1
    };
    let dx = iabs(rawdx);
    if i <= 0 {
        (x0, 2 * dx - dy)
    } else {
        let prev = bres_high_state(x0, y0, x1, y1, i - 1);
        if prev.1 > 0 {
            (prev.0 + xi, prev.1 - 2 * dy + 2 * dx)
        } else {
            (prev.0, prev.1 + 2 * dx)
        }
    }
}

/// The x cell the high-slope walk paints at `y = y0 + i`.
pub open spec fn bres_high_x(x0: int, y0: int, x1: int, y1: int, i: int) -> int {
    bres_high_state(x0, y0, x1, y1, i).0
}

/// Whether the high-slope walk from `(x0, y0)` to `(x1, y1)` paints `(x, y)`:
/// one cell per row of the inclusive range, the end row included.
pub open spec fn on_high_segment(x0: int, y0: int, x1: int, y1: int, x: int, y: int) -> bool {
    y0 <= y <= y1 && x == bres_high_x(x0, y0, x1, y1, y - y0)
}

/// Whether the line primitive from `(x0, y0)` to `(x1, y1)` paints `(x, y)`:
/// pure vertical and pure horizontal lines cover their whole inclusive
/// range, every other line follows the Bresenham variant picked by its
/// slope, walked from the smaller toward the larger coordinate.
pub open spec fn line_hit(x0: int, y0: int, x1: int, y1: int, x: int, y: int) -> bool {
    if x0 == x1 {
        x == x0 && y0 <= y <= y1
    } else if y0 == y1 {
        y == y0 && x0 <= x <= x1
    } else if iabs(y1 - y0) < iabs(x1 - x0) {
        if x0 > x1 {
            on_low_segment(x1, y1, x0, y0, x, y)
        } else {
            on_low_segment(x0, y0, x1, y1, x, y)
        }
    } else {
        if y0 > y1 {
            on_high_segment(x1, y1, x0, y0, x, y)
        } else {
            on_high_segment(x0, y0, x1, y1, x, y)
        }
    }
}

/// The glyph the line primitive draws: bars for the two axis-aligned cases,
/// a hash for the sloped ones.
pub open spec fn line_glyph(x0: int, y0: int, x1: int, y1: int) -> char {
    if x0 == x1 {
        '|'
    } else if y0 == y1 {
        '-'
    } else {
        '#'
    }
}

/// Whether the line primitive resets the active pair to the default before
/// painting; only the sloped variants do.
pub open spec fn line_resets_color(x0: int, y0: int, x1: int, y1: int) -> bool {
    x0 != x1 && y0 != y1
}

/// Whether the triangle primitive on a `w x h` surface paints `(x, y)`:
/// the cell must lie in the triangle's bounding box clipped to
/// `[0, w] x [0, h]` and classify as inside the triangle.
pub open spec fn tri_paints(
    w: int,
    h: int,
    v1: IVec2,
    v2: IVec2,
    v3: IVec2,
    x: int,
    y: int,
) -> bool {
    let minx = clamp_to(min3(v1.x as int, v2.x as int, v3.x as int), w);
    let maxx = clamp_to(max3(v1.x as int, v2.x as int, v3.x as int), w);
    let miny = clamp_to(min3(v1.y as int, v2.y as int, v3.y as int), h);
    let maxy = clamp_to(max3(v1.y as int, v2.y as int, v3.y as int), h);
    minx <= x <= maxx && miny <= y <= maxy && point_in_tri_spec(v1, v2, v3, x, y)
}

/// The four projected corner points of a mesh face, in face order.
#[derive(Clone, Copy, PartialEq, Eq, Structural, Debug)]
pub struct ScreenQuad {
    pub p0: IVec2,
    pub p1: IVec2,
    pub p2: IVec2,
    pub p3: IVec2,
}

/// Whether drawing the quad paints `(x, y)`: the quad is rasterized as the
/// two triangles sharing its `p0 - p2` diagonal.
pub open spec fn quad_paints(w: int, h: int, q: ScreenQuad, x: int, y: int) -> bool {
    tri_paints(w, h, q.p0, q.p1, q.p2, x, y) || tri_paints(w, h, q.p0, q.p3, q.p2, x, y)
}

/// The color pair a face is filled with: its color on black.
pub open spec fn face_pair(c: Color) -> ColorPair {
    ColorPair { fg: c, bg: Color::Black }
}

impl Canvas {
    /// Write glyph `c` at a wide coordinate, dropping anything off the
    /// surface, so walks may wander beyond the `i32` cell range.
    fn draw_cell_clipped(&mut self, c: char, x: i64, y: i64)
        requires
            old(self).wf(),
        ensures
            final(self).wf(),
            final(self).same_frame(*old(self)),
            old(self).in_bounds(x as int, y as int) ==> final(self).cells@
                == old(self).cells@.update(
                    old(self).idx(x as int, y as int),
                    (Cell { glyph: c, color: old(self).active }),
                ),
            !old(self).in_bounds(x as int, y as int) ==> final(self).cells@ == old(self).cells@,
    {
        if 0 <= x && x < self.width as i64 && 0 <= y && y < self.height as i64 {
            self.draw_cell(c, x as i32, y as i32);
        }
    }

    /// Walk the low-slope Bresenham variant from `(x0, y0)` to `(x1, y1)`,
    /// painting `#` in the default colors, which stay active afterwards.
    fn draw_line_low(&mut self, x0: i32, y0: i32, x1: i32, y1: i32)
        requires
            old(self).wf(),
            x0 < x1,
            iabs(y1 as int - y0 as int) < x1 as int - x0 as int,
        ensures
            final(self).wf(),
            final(self).width == old(self).width,
            final(self).height == old(self).height,
            final(self).active == default_pair(),
            forall|x: int, y: int|
                old(self).in_bounds(x, y) ==> final(self).cell_at(x, y) == (if on_low_segment(
                    x0 as int,
                    y0 as int,
                    x1 as int,
                    y1 as int,
                    x,
                    y,
                ) {
                    (Cell { glyph: '#', color: default_pair() })
                } else {
                    old(self).cell_at(x, y)
                }),
    {
        let dx: i64 = x1 as i64 - x0 as i64;
        let mut dy: i64 = y1 as i64 - y0 as i64;
        let mut yi: i64 = 1;
        if dy < 0 {
            yi = -1;
            dy = -dy;
        }
        let mut d: i64 = 2 * dy - dx;
        let mut y: i64 = y0 as i64;

        self.set_color_pair(ColorPair { fg: Color::White, bg: Color::Black });
        let ghost start = *self;
        let mut x: i64 = x0 as i64;
        while x <= x1 as i64
            invariant
                self.wf(),
                self.width == start.width,
                self.height == start.height,
                self.active == default_pair(),
                start.wf(),
                start.active == default_pair(),
                x0 as i64 <= x <= x1 as i64 + 1,
                dx as int == x1 as int - x0 as int,
                dy as int == iabs(y1 as int - y0 as int),
                0 <= dy < dx,
                (if (y1 as int) < (y0 as int) {
                    yi as int == -1
                } else {
                    yi as int == 1
                }),
                y0 as i64 - (x - x0 as i64) <= y <= y0 as i64 + (x - x0 as i64),
                y as int == bres_low_y(x0 as int, y0 as int, x1 as int, y1 as int, x as int - x0 as int),
                d as int == bres_low_state(
                    x0 as int,
                    y0 as int,
                    x1 as int,
                    y1 as int,
                    x as int - x0 as int,
                ).1,
                -2 * dx <= d <= 2 * dy,
                forall|xq: int, yq: int|
                    start.in_bounds(xq, yq) ==> self.cell_at(xq, yq) == (if (x0 as int <= xq < x as int
                        && yq == bres_low_y(x0 as int, y0 as int, x1 as int, y1 as int, xq - x0 as int)) {
                        (Cell { glyph: '#', color: default_pair() })
                    } else {
                        start.cell_at(xq, yq)
                    }),
            decreases x1 as i64 + 1 - x,
        {
            let ghost prev = *self;
            self.draw_cell_clipped('#', x, y);
            proof {
                let w = start.width as int;
                let h = start.height as int;
                assert forall|xq: int, yq: int| start.in_bounds(xq, yq) implies self.cell_at(
                    xq,
                    yq,
                ) == (if (x0 as int <= xq < x as int + 1 && yq == bres_low_y(
                    x0 as int,
                    y0 as int,
                    x1 as int,
                    y1 as int,
                    xq - x0 as int,
                )) {
                    (Cell { glyph: '#', color: default_pair() })
                } else {
                    start.cell_at(xq, yq)
                }) by {
                    lemma_grid_index(xq, yq, w, h);
                    if prev.in_bounds(x as int, y as int) {
                        lemma_grid_index(x as int, y as int, w, h);
                        if !(xq == x as int && yq == y as int) {
                            lemma_grid_index_injective(xq, yq, x as int, y as int, w, h);
                        }
                    }
                    assert(prev.cell_at(xq, yq) == (if (x0 as int <= xq < x as int && yq
                        == bres_low_y(
                        x0 as int,
                        y0 as int,
                        x1 as int,
                        y1 as int,
                        xq - x0 as int,
                    )) {
                        (Cell { glyph: '#', color: default_pair() })
                    } else {
                        start.cell_at(xq, yq)
                    }));
                }
            }
            if d > 0 {
                y = y + yi;
                d = d - 2 * dx;
            }
            d = d + 2 * dy;
            x = x + 1;
        }
        proof {
            assert(x as int == x1 as int + 1);
            assert forall|xq: int, yq: int| old(self).in_bounds(xq, yq) implies self.cell_at(
                xq,
                yq,
            ) == (if on_low_segment(x0 as int, y0 as int, x1 as int, y1 as int, xq, yq) {
                (Cell { glyph: '#', color: default_pair() })
            } else {
                old(self).cell_at(xq, yq)
            }) by {
                assert(start.in_bounds(xq, yq));
                assert(self.cell_at(xq, yq) == (if (x0 as int <= xq < x as int && yq == bres_low_y(
                    x0 as int,
                    y0 as int,
                    x1 as int,
                    y1 as int,
                    xq - x0 as int,
                )) {
                    (Cell { glyph: '#', color: default_pair() })
                } else {
                    start.cell_at(xq, yq)
                }));
                assert(start.cell_at(xq, yq) == old(self).cell_at(xq, yq));
            }
        }
    }

    /// Walk the high-slope Bresenham variant from `(x0, y0)` to `(x1, y1)`,
    /// painting `#` in the default colors, which stay active afterwards.
    fn draw_line_high(&mut self, x0: i32, y0: i32, x1: i32, y1: i32)
        requires
            old(self).wf(),
            y0 < y1,
            iabs(x1 as int - x0 as int) <= y1 as int - y0 as int,
        ensures
            final(self).wf(),
            final(self).width == old(self).width,
            final(self).height == old(self).height,
            final(self).active == default_pair(),
            forall|x: int, y: int|
                old(self).in_bounds(x, y) ==> final(self).cell_at(x, y) == (if on_high_segment(
                    x0 as int,
                    y0 as int,
                    x1 as int,
                    y1 as int,
                    x,
                    y,
                ) {
                    (Cell { glyph: '#', color: default_pair() })
                } else {
                    old(self).cell_at(x, y)
                }),
    {
        let dy: i64 = y1 as i64 - y0 as i64;
        let mut dx: i64 = x1 as i64 - x0 as i64;
        let mut xi: i64 = 1;
        if dx < 0 {
            xi = -1;
            dx = -dx;
        }
        let mut d: i64 = 2 * dx - dy;
        let mut x: i64 = x0 as i64;

        self.set_color_pair(ColorPair { fg: Color::White, bg: Color::Black });
        let ghost start = *self;
        let mut y: i64 = y0 as i64;
        while y <= y1 as i64
            invariant
                self.wf(),
                self.width == start.width,
                self.height == start.height,
                self.active == default_pair(),
                start.wf(),
                start.active == default_pair(),
                y0 as i64 <= y <= y1 as i64 + 1,
                dy as int == y1 as int - y0 as int,
                dx as int == iabs(x1 as int - x0 as int),
                0 <= dx <= dy,
                0 < dy,
                (if (x1 as int) < (x0 as int) {
                    xi as int == -1
                } else {
                    xi as int == 1
                }),
                x0 as i64 - (y - y0 as i64) <= x <= x0 as i64 + (y - y0 as i64),
                x as int == bres_high_x(x0 as int, y0 as int, x1 as int, y1 as int, y as int - y0 as int),
                d as int == bres_high_state(
                    x0 as int,
                    y0 as int,
                    x1 as int,
                    y1 as int,
                    y as int - y0 as int,
                ).1,
                -2 * dy <= d <= 2 * dx,
                forall|xq: int, yq: int|
                    start.in_bounds(xq, yq) ==> self.cell_at(xq, yq) == (if (y0 as int <= yq < y as int
                        && xq == bres_high_x(x0 as int, y0 as int, x1 as int, y1 as int, yq - y0 as int)) {
                        (Cell { glyph: '#', color: default_pair() })
                    } else {
                        start.cell_at(xq, yq)
                    }),
            decreases y1 as i64 + 1 - y,
        {
            let ghost prev = *self;
            self.draw_cell_clipped('#', x, y);
            proof {
                let w = start.width as int;
                let h = start.height as int;
                assert forall|xq: int, yq: int| start.in_bounds(xq, yq) implies self.cell_at(
                    xq,
                    yq,
                ) == (if (y0 as int <= yq < y as int + 1 && xq == bres_high_x(
                    x0 as int,
                    y0 as int,
                    x1 as int,
                    y1 as int,
                    yq - y0 as int,
                )) {
                    (Cell { glyph: '#', color: default_pair() })
                } else {
                    start.cell_at(xq, yq)
                }) by {
                    lemma_grid_index(xq, yq, w, h);
                    if prev.in_bounds(x as int, y as int) {
                        lemma_grid_index(x as int, y as int, w, h);
                        if !(xq == x as int && yq == y as int) {
                            lemma_grid_index_injective(xq, yq, x as int, y as int, w, h);
                        }
                    }
                    assert(prev.cell_at(xq, yq) == (if (y0 as int <= yq < y as int && xq
                        == bres_high_x(
                        x0 as int,
                        y0 as int,
                        x1 as int,
                        y1 as int,
                        yq - y0 as int,
                    )) {
                        (Cell { glyph: '#', color: default_pair() })
                    } else {
                        start.cell_at(xq, yq)
                    }));
                }
            }
            if d > 0 {
                x = x + xi;
                d = d - 2 * dy;
            }
            d = d + 2 * dx;
            y = y + 1;
        }
        proof {
            assert(y as int == y1 as int + 1);
            assert forall|xq: int, yq: int| old(self).in_bounds(xq, yq) implies self.cell_at(
                xq,
                yq,
            ) == (if on_high_segment(x0 as int, y0 as int, x1 as int, y1 as int, xq, yq) {
                (Cell { glyph: '#', color: default_pair() })
            } else {
                old(self).cell_at(xq, yq)
            }) by {
                assert(start.in_bounds(xq, yq));
                assert(self.cell_at(xq, yq) == (if (y0 as int <= yq < y as int && xq == bres_high_x(
                    x0 as int,
                    y0 as int,
                    x1 as int,
                    y1 as int,
                    yq - y0 as int,
                )) {
                    (Cell { glyph: '#', color: default_pair() })
                } else {
                    start.cell_at(xq, yq)
                }));
                assert(start.cell_at(xq, yq) == old(self).cell_at(xq, yq));
            }
        }
    }

    /// Draw the line from `(x0, y0)` to `(x1, y1)`: a vertical bar column or
    /// horizontal bar row over the inclusive range in the active colors, or
    /// a Bresenham walk of `#` glyphs in the default colors, chosen and
    /// oriented by the slope.
    pub fn draw_line(&mut self, x0: i32, y0: i32, x1: i32, y1: i32)
        requires
            old(self).wf(),
        ensures
            final(self).wf(),
            final(self).width == old(self).width,
            final(self).height == old(self).height,
            final(self).active == (if line_resets_color(x0 as int, y0 as int, x1 as int, y1 as int) {
                default_pair()
            } else {
                old(self).active
            }),
            forall|x: int, y: int|
                old(self).in_bounds(x, y) ==> final(self).cell_at(x, y) == (if line_hit(
                    x0 as int,
                    y0 as int,
                    x1 as int,
                    y1 as int,
                    x,
                    y,
                ) {
                    (Cell {
                        glyph: line_glyph(x0 as int, y0 as int, x1 as int, y1 as int),
                        color: final(self).active,
                    })
                } else {
                    old(self).cell_at(x, y)
                }),
    {
        if x0 == x1 {
            let ghost start = *self;
            let mut y: i64 = y0 as i64;
            while y <= y1 as i64
                invariant
                    self.wf(),
                    self.width == start.width,
                    self.height == start.height,
                    self.active == start.active,
                    start.wf(),
                    y0 as i64 <= y,
                    y <= y1 as i64 + 1 || y == y0 as i64,
                    forall|xq: int, yq: int|
                        start.in_bounds(xq, yq) ==> self.cell_at(xq, yq) == (if (xq == x0 as int
                            && y0 as int <= yq < y as int) {
                            (Cell { glyph: '|', color: start.active })
                        } else {
                            start.cell_at(xq, yq)
                        }),
                decreases y1 as i64 + 1 - y,
            {
                let ghost prev = *self;
                self.draw_cell_clipped('|', x0 as i64, y);
                proof {
                    let w = start.width as int;
                    let h = start.height as int;
                    assert forall|xq: int, yq: int| start.in_bounds(xq, yq) implies self.cell_at(
                        xq,
                        yq,
                    ) == (if (xq == x0 as int && y0 as int <= yq < y as int + 1) {
                        (Cell { glyph: '|', color: start.active })
                    } else {
                        start.cell_at(xq, yq)
                    }) by {
                        lemma_grid_index(xq, yq, w, h);
                        if prev.in_bounds(x0 as int, y as int) {
                            lemma_grid_index(x0 as int, y as int, w, h);
                            if !(xq == x0 as int && yq == y as int) {
                                lemma_grid_index_injective(xq, yq, x0 as int, y as int, w, h);
                            }
                        }
                        assert(prev.cell_at(xq, yq) == (if (xq == x0 as int && y0 as int <= yq
                            < y as int) {
                            (Cell { glyph: '|', color: start.active })
                        } else {
                            start.cell_at(xq, yq)
                        }));
                    }
                }
                y = y + 1;
            }
        } else if y0 == y1 {
            let ghost start = *self;
            let mut x: i64 = x0 as i64;
            while x <= x1 as i64
                invariant
                    self.wf(),
                    self.width == start.width,
                    self.height == start.height,
                    self.active == start.active,
                    start.wf(),
                    x0 as i64 <= x,
                    x <= x1 as i64 + 1 || x == x0 as i64,
                    forall|xq: int, yq: int|
                        start.in_bounds(xq, yq) ==> self.cell_at(xq, yq) == (if (yq == y0 as int
                            && x0 as int <= xq < x as int) {
                            (Cell { glyph: '-', color: start.active })
                        } else {
                            start.cell_at(xq, yq)
                        }),
                decreases x1 as i64 + 1 - x,
            {
                let ghost prev = *self;
                self.draw_cell_clipped('-', x, y0 as i64);
                proof {
                    let w = start.width as int;
                    let h = start.height as int;
                    assert forall|xq: int, yq: int| start.in_bounds(xq, yq) implies self.cell_at(
                        xq,
                        yq,
                    ) == (if (yq == y0 as int && x0 as int <= xq < x as int + 1) {
                        (Cell { glyph: '-', color: start.active })
                    } else {
                        start.cell_at(xq, yq)
                    }) by {
                        lemma_grid_index(xq, yq, w, h);
                        if prev.in_bounds(x as int, y0 as int) {
                            lemma_grid_index(x as int, y0 as int, w, h);
                            if !(xq == x as int && yq == y0 as int) {
                                lemma_grid_index_injective(xq, yq, x as int, y0 as int, w, h);
                            }
                        }
                        assert(prev.cell_at(xq, yq) == (if (yq == y0 as int && x0 as int <= xq
                            < x as int) {
                            (Cell { glyph: '-', color: start.active })
                        } else {
                            start.cell_at(xq, yq)
                        }));
                    }
                }
                x = x + 1;
            }
        } else {
            let rawdy: i64 = y1 as i64 - y0 as i64;
            let rawdx: i64 = x1 as i64 - x0 as i64;
            let ady: i64 = if rawdy < 0 {
                -rawdy
            } else {
                rawdy
            };
            let adx: i64 = if rawdx < 0 {
                -rawdx
            } else {
                rawdx
            };
            if ady < adx {
                if x0 > x1 {
                    self.draw_line_low(x1, y1, x0, y0);
                } else {
                    self.draw_line_low(x0, y0, x1, y1);
                }
            } else {
                if y0 > y1 {
                    self.draw_line_high(x1, y1, x0, y0);
                } else {
                    self.draw_line_high(x0, y0, x1, y1);
                }
            }
        }
    }

    /// Fill the triangle `(v1, v2, v3)` with `#` glyphs in `color`: every
    /// cell of the bounding box, clipped against the surface, that the
    /// edge-function test classifies as inside is painted; `color` stays
    /// active afterwards. A degenerate triangle paints nothing.
    pub fn draw_tri(&mut self, color: ColorPair, v1: IVec2, v2: IVec2, v3: IVec2)
        requires
            old(self).wf(),
        ensures
            final(self).wf(),
            final(self).width == old(self).width,
            final(self).height == old(self).height,
            final(self).active == color,
            forall|x: int, y: int|
                old(self).in_bounds(x, y) ==> final(self).cell_at(x, y) == (if tri_paints(
                    old(self).width as int,
                    old(self).height as int,
                    v1,
                    v2,
                    v3,
                    x,
                    y,
                ) {
                    (Cell { glyph: '#', color })
                } else {
                    old(self).cell_at(x, y)
                }),
    {
        let (bminx, bmaxx, bminy, bmaxy) = tri_bounding_box(v1, v2, v3);
        let (minx, maxx, miny, maxy) = clip_box(bminx, bmaxx, bminy, bmaxy, self.width, self.height);

        self.set_color_pair(color);
        let ghost start = *self;
        let ghost w = start.width as int;
        let ghost h = start.height as int;
        let mut x: i64 = minx as i64;
        while x <= maxx as i64
            invariant
                self.wf(),
                self.width == start.width,
                self.height == start.height,
                self.active == color,
                start.wf(),
                start.active == color,
                w == start.width as int,
                h == start.height as int,
                minx as int == clamp_to(min3(v1.x as int, v2.x as int, v3.x as int), w),
                maxx as int == clamp_to(max3(v1.x as int, v2.x as int, v3.x as int), w),
                miny as int == clamp_to(min3(v1.y as int, v2.y as int, v3.y as int), h),
                maxy as int == clamp_to(max3(v1.y as int, v2.y as int, v3.y as int), h),
                minx as i64 <= x <= maxx as i64 + 1,
                forall|xq: int, yq: int|
                    start.in_bounds(xq, yq) ==> self.cell_at(xq, yq) == (if (xq < x as int
                        && tri_paints(w, h, v1, v2, v3, xq, yq)) {
                        (Cell { glyph: '#', color })
                    } else {
                        start.cell_at(xq, yq)
                    }),
            decreases maxx as i64 + 1 - x,
        {
            let mut y: i64 = miny as i64;
            while y <= maxy as i64
                invariant
                    self.wf(),
                    self.width == start.width,
                    self.height == start.height,
                    self.active == color,
                    start.wf(),
                    start.active == color,
                    w == start.width as int,
                    h == start.height as int,
                    minx as int == clamp_to(min3(v1.x as int, v2.x as int, v3.x as int), w),
                    maxx as int == clamp_to(max3(v1.x as int, v2.x as int, v3.x as int), w),
                    miny as int == clamp_to(min3(v1.y as int, v2.y as int, v3.y as int), h),
                    maxy as int == clamp_to(max3(v1.y as int, v2.y as int, v3.y as int), h),
                    minx as i64 <= x <= maxx as i64,
                    miny as i64 <= y <= maxy as i64 + 1,
                    forall|xq: int, yq: int|
                        start.in_bounds(xq, yq) ==> self.cell_at(xq, yq) == (if ((xq < x as int || (
                        xq == x as int && yq < y as int)) && tri_paints(w, h, v1, v2, v3, xq, yq)) {
                            (Cell { glyph: '#', color })
                        } else {
                            start.cell_at(xq, yq)
                        }),
                decreases maxy as i64 + 1 - y,
            {
                let ghost prev = *self;
                let inside = point_in_tri(v1, v2, v3, IVec2 { x: x as i32, y: y as i32 });
                if inside {
                    self.draw_cell_clipped('#', x, y);
                }
                proof {
                    assert forall|xq: int, yq: int| start.in_bounds(xq, yq) implies self.cell_at(
                        xq,
                        yq,
                    ) == (if ((xq < x as int || (xq == x as int && yq < y as int + 1)) && tri_paints(
                        w,
                        h,
                        v1,
                        v2,
                        v3,
                        xq,
                        yq,
                    )) {
                        (Cell { glyph: '#', color })
                    } else {
                        start.cell_at(xq, yq)
                    }) by {
                        lemma_grid_index(xq, yq, w, h);
                        if inside && prev.in_bounds(x as int, y as int) {
                            lemma_grid_index(x as int, y as int, w, h);
                            if !(xq == x as int && yq == y as int) {
                                lemma_grid_index_injective(xq, yq, x as int, y as int, w, h);
                            }
                        }
                        assert(prev.cell_at(xq, yq) == (if ((xq < x as int || (xq == x as int && yq
                            < y as int)) && tri_paints(w, h, v1, v2, v3, xq, yq)) {
                            (Cell { glyph: '#', color })
                        } else {
                            start.cell_at(xq, yq)
                        }));
                    }
                }
                y = y + 1;
            }
            x = x + 1;
        }
        proof {
            assert forall|xq: int, yq: int| old(self).in_bounds(xq, yq) implies self.cell_at(
                xq,
                yq,
            ) == (if tri_paints(w, h, v1, v2, v3, xq, yq) {
                (Cell { glyph: '#', color })
            } else {
                old(self).cell_at(xq, yq)
            }) by {
                assert(start.in_bounds(xq, yq));
                assert(self.cell_at(xq, yq) == (if (xq < x as int && tri_paints(
                    w,
                    h,
                    v1,
                    v2,
                    v3,
                    xq,
                    yq,
                )) {
                    (Cell { glyph: '#', color })
                } else {
                    start.cell_at(xq, yq)
                }));
                if tri_paints(w, h, v1, v2, v3, xq, yq) {
                    assert(xq <= maxx as int);
                    assert(xq < x as int);
                }
                assert(start.cell_at(xq, yq) == old(self).cell_at(xq, yq));
            }
        }
    }

    /// Fill one projected face: its two triangles, sharing the `p0 - p2`
    /// diagonal, in `color`; `color` stays active afterwards.
    pub fn draw_quad(&mut self, color: ColorPair, q: ScreenQuad)
        requires
            old(self).wf(),
        ensures
            final(self).wf(),
            final(self).width == old(self).width,
            final(self).height == old(self).height,
            final(self).active == color,
            forall|x: int, y: int|
                old(self).in_bounds(x, y) ==> final(self).cell_at(x, y) == (if quad_paints(
                    old(self).width as int,
                    old(self).height as int,
                    q,
                    x,
                    y,
                ) {
                    (Cell { glyph: '#', color })
                } else {
                    old(self).cell_at(x, y)
                }),
    {
        let ghost w = self.width as int;
        let ghost h = self.height as int;
        self.draw_tri(color, q.p0, q.p1, q.p2);
        let ghost mid = *self;
        self.draw_tri(color, q.p0, q.p3, q.p2);
        proof {
            assert forall|x: int, y: int| old(self).in_bounds(x, y) implies self.cell_at(x, y)
                == (if quad_paints(w, h, q, x, y) {
                (Cell { glyph: '#', color })
            } else {
                old(self).cell_at(x, y)
            }) by {
                assert(mid.in_bounds(x, y));
                if tri_paints(w, h, q.p0, q.p3, q.p2, x, y) {
                    assert(self.cell_at(x, y) == (Cell { glyph: '#', color }));
                } else {
                    assert(self.cell_at(x, y) == mid.cell_at(x, y));
                }
            }
        }
    }

    /// Draw the listed faces in the given order, each filled with its own
    /// color on black: a cell painted by several faces keeps the one drawn
    /// last, so a back-to-front order makes nearer faces overwrite farther
    /// ones; a cell painted by none keeps its old content. The last face's
    /// color pair stays active; an empty order leaves the surface alone.
    pub fn draw_face_list(&mut self, quads: &Vec<ScreenQuad>, colors: &Vec<Color>, order: &Vec<
        usize,
    >)
        requires
            old(self).wf(),
            colors@.len() == quads@.len(),
            forall|j: int| 0 <= j < order@.len() ==> #[trigger] order@[j] < quads@.len(),
        ensures
            final(self).wf(),
            final(self).width == old(self).width,
            final(self).height == old(self).height,
            order@.len() == 0 ==> final(self).active == old(self).active,
            order@.len() > 0 ==> final(self).active == face_pair(
                colors@[order@[order@.len() - 1] as int],
            ),
            forall|x: int, y: int|
                old(self).in_bounds(x, y) && (forall|j: int|
                    0 <= j < order@.len() ==> !quad_paints(
                        old(self).width as int,
                        old(self).height as int,
                        quads@[#[trigger] order@[j] as int],
                        x,
                        y,
                    )) ==> final(self).cell_at(x, y) == old(self).cell_at(x, y),
            forall|x: int, y: int, j: int|
                old(self).in_bounds(x, y) && 0 <= j < order@.len() && #[trigger] quad_paints(
                    old(self).width as int,
                    old(self).height as int,
                    quads@[order@[j] as int],
                    x,
                    y,
                ) && (forall|j2: int|
                    j < j2 < order@.len() ==> !quad_paints(
                        old(self).width as int,
                        old(self).height as int,
                        quads@[#[trigger] order@[j2] as int],
                        x,
                        y,
                    )) ==> final(self).cell_at(x, y) == (Cell {
                    glyph: '#',
                    color: face_pair(colors@[order@[j] as int]),
                }),
    {
        let ghost start = *self;
        let ghost w = start.width as int;
        let ghost h = start.height as int;
        let n = order.len();
        let mut k: usize = 0;
        while k < n
            invariant
                self.wf(),
                self.width == start.width,
                self.height == start.height,
                start.wf(),
                w == start.width as int,
                h == start.height as int,
                k <= n,
                n == order@.len(),
                colors@.len() == quads@.len(),
                forall|j: int| 0 <= j < order@.len() ==> #[trigger] order@[j] < quads@.len(),
                k == 0 ==> self.active == start.active,
                k > 0 ==> self.active == face_pair(colors@[order@[k - 1] as int]),
                forall|x: int, y: int|
                    start.in_bounds(x, y) && (forall|j: int|
                        0 <= j < k ==> !quad_paints(w, h, quads@[#[trigger] order@[j] as int], x, y))
                        ==> self.cell_at(x, y) == start.cell_at(x, y),
                forall|x: int, y: int, j: int|
                    start.in_bounds(x, y) && 0 <= j < k && #[trigger] quad_paints(
                        w,
                        h,
                        quads@[order@[j] as int],
                        x,
                        y,
                    ) && (forall|j2: int|
                        j < j2 < k ==> !quad_paints(w, h, quads@[#[trigger] order@[j2] as int], x, y))
                        ==> self.cell_at(x, y) == (Cell {
                        glyph: '#',
                        color: face_pair(colors@[order@[j] as int]),
                    }),
            decreases n - k,
        {
            let ghost prev = *self;
            let fi = order[k];
            let q = quads[fi];
            let c = colors[fi];
            self.draw_quad(ColorPair { fg: c, bg: Color::Black }, q);
            proof {
                assert forall|x: int, y: int|
                    start.in_bounds(x, y) && (forall|j: int|
                        0 <= j < k + 1 ==> !quad_paints(w, h, quads@[#[trigger] order@[j] as int], x, y))
                        implies self.cell_at(x, y) == start.cell_at(x, y) by {
                    assert(!quad_paints(w, h, quads@[order@[k as int] as int], x, y));
                    assert(self.cell_at(x, y) == prev.cell_at(x, y));
                    assert(prev.cell_at(x, y) == start.cell_at(x, y));
                }
                assert forall|x: int, y: int, j: int|
                    start.in_bounds(x, y) && 0 <= j < k + 1 && #[trigger] quad_paints(
                        w,
                        h,
                        quads@[order@[j] as int],
                        x,
                        y,
                    ) && (forall|j2: int|
                        j < j2 < k + 1 ==> !quad_paints(w, h, quads@[#[trigger] order@[j2] as int], x, y))
                        implies self.cell_at(x, y) == (Cell {
                        glyph: '#',
                        color: face_pair(colors@[order@[j] as int]),
                    }) by {
                    if j == k {
                        assert(self.cell_at(x, y) == (Cell {
                            glyph: '#',
                            color: face_pair(colors@[order@[j] as int]),
                        }));
                    } else {
                        assert(!quad_paints(w, h, quads@[order@[k as int] as int], x, y));
                        assert(self.cell_at(x, y) == prev.cell_at(x, y));
                        assert(prev.cell_at(x, y) == (Cell {
                            glyph: '#',
                            color: face_pair(colors@[order@[j] as int]),
                        }));
                    }
                }
            }
            k = k + 1;
        }
    }
}

} // verus!

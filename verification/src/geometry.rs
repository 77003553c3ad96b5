//! Screen-space integer geometry: 2D vectors, the perpendicular dot
//! product, the edge-function point-in-triangle test, and axis-aligned
//! bounding boxes with clipping.

use vstd::prelude::*;

verus! {

/// A point or vector in screen space, measured in character cells.
#[derive(Clone, Copy, PartialEq, Eq, Structural, Debug)]
pub struct IVec2 {
    pub x: i32,
    pub y: i32,
}

/// The perpendicular dot product (2D cross product) of `a` and `b`.
pub open spec fn spec_perp_dot(a: IVec2, b: IVec2) -> int {
    a.x * b.y - a.y * b.x
}

impl IVec2 {
    pub fn new(x: i32, y: i32) -> (r: IVec2)
        ensures
            r.x == x,
            r.y == y,
    {
        IVec2 { x, y }
    }

    /// The perpendicular dot product `a.x * b.y - a.y * b.x`, widened so it
    /// is exact for every pair of screen vectors.
    pub fn perp_dot_product(&self, other: &IVec2) -> (r: i128)
        ensures
            r == spec_perp_dot(*self, *other),
    {
        let ax = self.x as i128;
        let ay = self.y as i128;
        let bx = other.x as i128;
        let by = other.y as i128;
        proof {
            assert(-0x4000_0000_0000_0000 <= ax * by <= 0x4000_0000_0000_0000)
                by (nonlinear_arith)
                requires
                    -0x8000_0000 <= ax <= 0x7fff_ffff,
                    -0x8000_0000 <= by <= 0x7fff_ffff,
            ;
            assert(-0x4000_0000_0000_0000 <= ay * bx <= 0x4000_0000_0000_0000)
                by (nonlinear_arith)
                requires
                    -0x8000_0000 <= ay <= 0x7fff_ffff,
                    -0x8000_0000 <= bx <= 0x7fff_ffff,
            ;
        }
        ax * by - ay * bx
    }
}

/// The perpendicular dot product over unbounded integers.
pub open spec fn perp_dot_int(ax: int, ay: int, bx: int, by: int) -> int {
    ax * by - ay * bx
}

/// The edge-function denominator of the triangle `(v1, v2, v3)`:
/// `perp_dot(v2 - v1, v3 - v1)`. It is zero exactly for degenerate
/// (collinear) triangles.
pub open spec fn tri_denom(v1: IVec2, v2: IVec2, v3: IVec2) -> int {
    perp_dot_int(v2.x - v1.x, v2.y - v1.y, v3.x - v1.x, v3.y - v1.y)
}

/// The numerator of the first barycentric coordinate `s` of `(px, py)`:
/// `perp_dot(p - v1, v3 - v1)`.
pub open spec fn tri_s_num(v1: IVec2, v2: IVec2, v3: IVec2, px: int, py: int) -> int {
    perp_dot_int(px - v1.x, py - v1.y, v3.x - v1.x, v3.y - v1.y)
}

/// The numerator of the second barycentric coordinate `t` of `(px, py)`:
/// `perp_dot(v2 - v1, p - v1)`.
pub open spec fn tri_t_num(v1: IVec2, v2: IVec2, v3: IVec2, px: int, py: int) -> int {
    perp_dot_int(v2.x - v1.x, v2.y - v1.y, px - v1.x, py - v1.y)
}

/// Whether `(px, py)` lies in the triangle `(v1, v2, v3)`, edges included.
///
/// This states `s >= 0 && t >= 0 && s + t <= 1` for the barycentric
/// coordinates `s = tri_s_num / tri_denom` and `t = tri_t_num / tri_denom`,
/// with the divisions multiplied out by the sign of the denominator so the
/// statement stays in the integers. A degenerate triangle (denominator zero)
/// contains no point: it is skipped rather than divided by zero.
pub open spec fn point_in_tri_spec(v1: IVec2, v2: IVec2, v3: IVec2, px: int, py: int) -> bool {
    let d = tri_denom(v1, v2, v3);
    let s = tri_s_num(v1, v2, v3, px, py);
    let t = tri_t_num(v1, v2, v3, px, py);
    if d > 0 {
        s >= 0 && t >= 0 && s + t <= d
    } else if d < 0 {
        s <= 0 && t <= 0 && s + t >= d
    } else {
        false
    }
}

/// The perpendicular dot product of two difference vectors whose components
/// each fit in 33 bits, computed exactly.
fn perp_dot_wide(ax: i64, ay: i64, bx: i64, by: i64) -> (r: i128)
    requires
        -0x1_0000_0000 <= ax <= 0x1_0000_0000,
        -0x1_0000_0000 <= ay <= 0x1_0000_0000,
        -0x1_0000_0000 <= bx <= 0x1_0000_0000,
        -0x1_0000_0000 <= by <= 0x1_0000_0000,
    ensures
        r == perp_dot_int(ax as int, ay as int, bx as int, by as int),
        -0x2_0000_0000_0000_0000 <= r <= 0x2_0000_0000_0000_0000,
{
    proof {
        assert(-0x1_0000_0000_0000_0000 <= (ax as int) * (by as int) <= 0x1_0000_0000_0000_0000)
            by (nonlinear_arith)
            requires
                -0x1_0000_0000 <= ax <= 0x1_0000_0000,
                -0x1_0000_0000 <= by <= 0x1_0000_0000,
        ;
        assert(-0x1_0000_0000_0000_0000 <= (ay as int) * (bx as int) <= 0x1_0000_0000_0000_0000)
            by (nonlinear_arith)
            requires
                -0x1_0000_0000 <= ay <= 0x1_0000_0000,
                -0x1_0000_0000 <= bx <= 0x1_0000_0000,
        ;
    }
    (ax as i128) * (by as i128) - (ay as i128) * (bx as i128)
}

/// Classify `p` against the triangle `(v1, v2, v3)` with the edge-function
/// test; a degenerate triangle reports `false` for every point.
pub fn point_in_tri(v1: IVec2, v2: IVec2, v3: IVec2, p: IVec2) -> (r: bool)
    ensures
        r == point_in_tri_spec(v1, v2, v3, p.x as int, p.y as int),
{
    let vs1x = v2.x as i64 - v1.x as i64;
    let vs1y = v2.y as i64 - v1.y as i64;
    let vs2x = v3.x as i64 - v1.x as i64;
    let vs2y = v3.y as i64 - v1.y as i64;
    let qx = p.x as i64 - v1.x as i64;
    let qy = p.y as i64 - v1.y as i64;
    let d = perp_dot_wide(vs1x, vs1y, vs2x, vs2y);
    let s = perp_dot_wide(qx, qy, vs2x, vs2y);
    let t = perp_dot_wide(vs1x, vs1y, qx, qy);
    if d > 0 {
        s >= 0 && t >= 0 && s + t <= d
    } else if d < 0 {
        s <= 0 && t <= 0 && s + t >= d
    } else {
        false
    }
}

/// The smallest of three integers.
pub open spec fn min3(a: int, b: int, c: int) -> int {
    if b < a {
        if c < b {
            c
        } else {
            b
        }
    } else {
        if c < a {
            c
        } else {
            a
        }
    }
}

/// The largest of three integers.
pub open spec fn max3(a: int, b: int, c: int) -> int {
    if b > a {
        if c > b {
            c
        } else {
            b
        }
    } else {
        if c > a {
            c
        } else {
            a
        }
    }
}

/// The axis-aligned bounding box of the three vertices, returned as
/// `(minimum x, maximum x, minimum y, maximum y)`.
pub fn tri_bounding_box(v1: IVec2, v2: IVec2, v3: IVec2) -> (r: (i32, i32, i32, i32))
    ensures
        r.0 == min3(v1.x as int, v2.x as int, v3.x as int),
        r.1 == max3(v1.x as int, v2.x as int, v3.x as int),
        r.2 == min3(v1.y as int, v2.y as int, v3.y as int),
        r.3 == max3(v1.y as int, v2.y as int, v3.y as int),
{
    let mut min_x = v1.x;
    let mut max_x = v1.x;
    let mut min_y = v1.y;
    let mut max_y = v1.y;

    if v2.x < min_x {
        min_x = v2.x;
    } else if v2.x > max_x {
        max_x = v2.x;
    }
    if v2.y < min_y {
        min_y = v2.y;
    } else if v2.y > max_y {
        max_y = v2.y;
    }
    if v3.x < min_x {
        min_x = v3.x;
    } else if v3.x > max_x {
        max_x = v3.x;
    }
    if v3.y < min_y {
        min_y = v3.y;
    } else if v3.y > max_y {
        max_y = v3.y;
    }

    (min_x, max_x, min_y, max_y)
}

/// `v` clamped into `[0, hi]`.
pub open spec fn clamp_to(v: int, hi: int) -> int {
    if v < 0 {
        if hi < 0 {
            hi
        } else {
            0
        }
    } else if v > hi {
        hi
    } else {
        v
    }
}

/// Clip a bounding box against the render target bounds `[0, w] x [0, h]`,
/// clamping each edge independently.
pub fn clip_box(minx: i32, maxx: i32, miny: i32, maxy: i32, w: i32, h: i32) -> (r: (
    i32,
    i32,
    i32,
    i32,
))
    ensures
        r.0 == clamp_to(minx as int, w as int),
        r.1 == clamp_to(maxx as int, w as int),
        r.2 == clamp_to(miny as int, h as int),
        r.3 == clamp_to(maxy as int, h as int),
{
    (clamp_i32(minx, w), clamp_i32(maxx, w), clamp_i32(miny, h), clamp_i32(maxy, h))
}

/// `min(hi, max(0, v))` on machine integers.
fn clamp_i32(v: i32, hi: i32) -> (r: i32)
    ensures
        r == clamp_to(v as int, hi as int),
{
    let low = if v < 0 {
        0
    } else {
        v
    };
    if low > hi {
        hi
    } else {
        low
    }
}

/// The bounding box of three points contains each of them.
pub proof fn lemma_bbox_contains(v1: IVec2, v2: IVec2, v3: IVec2)
    ensures
        min3(v1.x as int, v2.x as int, v3.x as int) <= v1.x <= max3(v1.x as int, v2.x as int, v3.x as int),
        min3(v1.x as int, v2.x as int, v3.x as int) <= v2.x <= max3(v1.x as int, v2.x as int, v3.x as int),
        min3(v1.x as int, v2.x as int, v3.x as int) <= v3.x <= max3(v1.x as int, v2.x as int, v3.x as int),
        min3(v1.y as int, v2.y as int, v3.y as int) <= v1.y <= max3(v1.y as int, v2.y as int, v3.y as int),
        min3(v1.y as int, v2.y as int, v3.y as int) <= v2.y <= max3(v1.y as int, v2.y as int, v3.y as int),
        min3(v1.y as int, v2.y as int, v3.y as int) <= v3.y <= max3(v1.y as int, v2.y as int, v3.y as int),
{
}

/// A box clipped to `[0, w] x [0, h]` with `w, h >= 0` never leaves those
/// bounds.
pub proof fn lemma_clip_within_bounds(minx: int, maxx: int, miny: int, maxy: int, w: int, h: int)
    requires
        0 <= w,
        0 <= h,
    ensures
        0 <= clamp_to(minx, w) <= w,
        0 <= clamp_to(maxx, w) <= w,
        0 <= clamp_to(miny, h) <= h,
        0 <= clamp_to(maxy, h) <= h,
{
}

/// Each vertex of a non-degenerate triangle classifies as inside its own
/// triangle.
pub proof fn lemma_vertices_in_own_tri(v1: IVec2, v2: IVec2, v3: IVec2)
    requires
        tri_denom(v1, v2, v3) != 0,
    ensures
        point_in_tri_spec(v1, v2, v3, v1.x as int, v1.y as int),
        point_in_tri_spec(v1, v2, v3, v2.x as int, v2.y as int),
        point_in_tri_spec(v1, v2, v3, v3.x as int, v3.y as int),
{
    let d = tri_denom(v1, v2, v3);
    let ax = v2.x - v1.x as int;
    let ay = v2.y - v1.y as int;
    let bx = v3.x - v1.x as int;
    let by = v3.y - v1.y as int;

    // At v1 the offset vector is zero, so both numerators vanish.
    assert(tri_s_num(v1, v2, v3, v1.x as int, v1.y as int) == 0 * by - 0 * bx);
    assert(0 * by - 0 * bx == 0) by (nonlinear_arith);
    assert(tri_t_num(v1, v2, v3, v1.x as int, v1.y as int) == ax * 0 - ay * 0);
    assert(ax * 0 - ay * 0 == 0) by (nonlinear_arith);

    // At v2 the offset equals the first edge: `s` is the full denominator,
    // `t` is a vector crossed with itself.
    assert(tri_s_num(v1, v2, v3, v2.x as int, v2.y as int) == d);
    assert(tri_t_num(v1, v2, v3, v2.x as int, v2.y as int) == ax * ay - ay * ax);
    assert(ax * ay - ay * ax == 0) by (nonlinear_arith);

    // At v3 the offset equals the second edge, symmetrically.
    assert(tri_s_num(v1, v2, v3, v3.x as int, v3.y as int) == bx * by - by * bx);
    assert(bx * by - by * bx == 0) by (nonlinear_arith);
    assert(tri_t_num(v1, v2, v3, v3.x as int, v3.y as int) == d);
}

} // verus!

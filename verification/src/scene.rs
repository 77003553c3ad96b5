//! Mesh faces, the screen-visibility test, and back-to-front depth
//! ordering for the painter's algorithm.
//!
//! The projector hands this module plain values: one projected screen point
//! per vertex, one flag saying whether the vertex lies at positive
//! camera-relative depth, and one ordering key per visible face. Everything
//! decided from those values is verified here.

use vstd::prelude::*;

use crate::canvas::Color;
use crate::geometry::IVec2;
use crate::raster::ScreenQuad;

verus! {

/// A quadrilateral mesh face: exactly four indices into the vertex list.
#[derive(Clone, Copy, PartialEq, Eq, Structural, Debug)]
pub struct Face {
    pub a: usize,
    pub b: usize,
    pub c: usize,
    pub d: usize,
}

impl Face {
    /// All four indices point into a vertex list of length `n`.
    pub open spec fn wf(self, n: int) -> bool {
        self.a < n && self.b < n && self.c < n && self.d < n
    }
}

/// Whether vertex `v` passes the per-vertex visibility test: positive
/// camera-relative depth and a projected point strictly inside
/// `(0, w) x (0, h)`.
pub open spec fn vertex_visible(
    screen: Seq<IVec2>,
    depth_pos: Seq<bool>,
    v: int,
    w: int,
    h: int,
) -> bool {
    depth_pos[v] && 0 < screen[v].x < w && 0 < screen[v].y < h
}

/// Whether a face counts as on-screen: at least one of its four vertices
/// passes the per-vertex test. This is the cheap approximate test, not true
/// clipping.
pub open spec fn face_visible(
    screen: Seq<IVec2>,
    depth_pos: Seq<bool>,
    f: Face,
    w: int,
    h: int,
) -> bool {
    ||| vertex_visible(screen, depth_pos, f.a as int, w, h)
    ||| vertex_visible(screen, depth_pos, f.b as int, w, h)
    ||| vertex_visible(screen, depth_pos, f.c as int, w, h)
    ||| vertex_visible(screen, depth_pos, f.d as int, w, h)
}

/// The per-vertex visibility test on plain values.
fn vertex_on_screen(screen: &Vec<IVec2>, depth_pos: &Vec<bool>, v: usize, w: i32, h: i32) -> (r:
    bool)
    requires
        v < screen@.len(),
        depth_pos@.len() == screen@.len(),
    ensures
        r == vertex_visible(screen@, depth_pos@, v as int, w as int, h as int),
{
    let p = screen[v];
    depth_pos[v] && p.x > 0 && p.x < w && p.y > 0 && p.y < h
}

/// The face visibility test on plain values.
pub fn face_on_screen(screen: &Vec<IVec2>, depth_pos: &Vec<bool>, f: &Face, w: i32, h: i32) -> (r:
    bool)
    requires
        f.wf(screen@.len() as int),
        depth_pos@.len() == screen@.len(),
    ensures
        r == face_visible(screen@, depth_pos@, *f, w as int, h as int),
{
    vertex_on_screen(screen, depth_pos, f.a, w, h) || vertex_on_screen(screen, depth_pos, f.b, w, h)
        || vertex_on_screen(screen, depth_pos, f.c, w, h) || vertex_on_screen(
        screen,
        depth_pos,
        f.d,
        w,
        h,
    )
}

/// A face with every vertex at non-positive depth, or with every projected
/// vertex outside the open screen rectangle, never counts as on-screen.
pub proof fn lemma_hidden_face_excluded(
    screen: Seq<IVec2>,
    depth_pos: Seq<bool>,
    f: Face,
    w: int,
    h: int,
)
    requires
        (!depth_pos[f.a as int] && !depth_pos[f.b as int] && !depth_pos[f.c as int]
            && !depth_pos[f.d as int]) || (forall|k: int|
            k == f.a as int || k == f.b as int || k == f.c as int || k == f.d as int ==> !(0
                < #[trigger] screen[k].x < w && 0 < screen[k].y < h)),
    ensures
        !face_visible(screen, depth_pos, f, w, h),
{
}

/// Collect the indices of the on-screen faces, in face order: index `i` is
/// in the result exactly when face `i` passes the visibility test, and the
/// result is strictly increasing.
pub fn visible_faces(
    screen: &Vec<IVec2>,
    depth_pos: &Vec<bool>,
    faces: &Vec<Face>,
    w: i32,
    h: i32,
) -> (r: Vec<usize>)
    requires
        forall|i: int| 0 <= i < faces@.len() ==> (#[trigger] faces@[i]).wf(screen@.len() as int),
        depth_pos@.len() == screen@.len(),
    ensures
        forall|j: int|
            0 <= j < r@.len() ==> r@[j] < faces@.len() && face_visible(
                screen@,
                depth_pos@,
                faces@[#[trigger] r@[j] as int],
                w as int,
                h as int,
            ),
        forall|i: int|
            0 <= i < faces@.len() && face_visible(screen@, depth_pos@, #[trigger] faces@[i], w as int, h as int)
                ==> exists|j: int| 0 <= j < r@.len() && r@[j] == i,
        forall|j1: int, j2: int| 0 <= j1 < j2 < r@.len() ==> r@[j1] < r@[j2],
{
    let mut r: Vec<usize> = Vec::new();
    let n = faces.len();
    let mut i: usize = 0;
    while i < n
        invariant
            i <= n,
            n == faces@.len(),
            depth_pos@.len() == screen@.len(),
            forall|k: int| 0 <= k < faces@.len() ==> (#[trigger] faces@[k]).wf(screen@.len() as int),
            forall|j: int|
                0 <= j < r@.len() ==> r@[j] < i && face_visible(
                    screen@,
                    depth_pos@,
                    faces@[#[trigger] r@[j] as int],
                    w as int,
                    h as int,
                ),
            forall|k: int|
                0 <= k < i && face_visible(screen@, depth_pos@, #[trigger] faces@[k], w as int, h as int)
                    ==> exists|j: int| 0 <= j < r@.len() && r@[j] == k,
            forall|j1: int, j2: int| 0 <= j1 < j2 < r@.len() ==> r@[j1] < r@[j2],
        decreases n - i,
    {
        let ghost before = r@;
        let f = faces[i];
        if face_on_screen(screen, depth_pos, &f, w, h) {
            r.push(i);
        }
        proof {
            assert forall|k: int|
                0 <= k < i + 1 && face_visible(
                    screen@,
                    depth_pos@,
                    #[trigger] faces@[k],
                    w as int,
                    h as int,
                ) implies exists|j: int| 0 <= j < r@.len() && r@[j] == k by {
                if k == i {
                    assert(r@[r@.len() - 1] == i);
                } else {
                    let jw = choose|j: int| 0 <= j < before.len() && before[j] == k;
                    assert(r@[jw] == k);
                }
            }
        }
        i = i + 1;
    }
    r
}

/// Face `a` is drawn before face `b` under the painter's ordering: `a` has
/// the strictly larger ordering key, or the keys tie and `a` is the face
/// that was collected later. Over distinct faces this is a strict total
/// order, so it pins the draw sequence completely.
pub open spec fn draws_before(keys: Seq<u64>, a: int, b: int) -> bool {
    keys[a] > keys[b] || (keys[a] == keys[b] && a > b)
}

/// The painter's ordering decides every pair of distinct faces, one way
/// exactly: together with transitivity it is a strict total order, so the
/// sorted draw list is unique.
pub proof fn lemma_draws_before_total(keys: Seq<u64>, a: int, b: int)
    requires
        0 <= a < keys.len(),
        0 <= b < keys.len(),
        a != b,
    ensures
        draws_before(keys, a, b) <==> !draws_before(keys, b, a),
{
}

/// The painter's ordering is transitive.
pub proof fn lemma_draws_before_transitive(keys: Seq<u64>, a: int, b: int, c: int)
    requires
        draws_before(keys, a, b),
        draws_before(keys, b, c),
    ensures
        draws_before(keys, a, c),
{
}

/// Order the face indices `0 .. keys.len()` for drawing: sort ascending by
/// key (ties keeping collection order) and reverse, so the face with the
/// largest key is drawn first and nearer faces overwrite farther ones.
pub fn depth_order(keys: &Vec<u64>) -> (r: Vec<usize>)
    ensures
        r@.len() == keys@.len(),
        forall|j: int| 0 <= j < r@.len() ==> #[trigger] r@[j] < keys@.len(),
        forall|i: usize| (i as int) < keys@.len() ==> #[trigger] r@.contains(i),
        forall|j1: int, j2: int|
            0 <= j1 < j2 < r@.len() ==> draws_before(keys@, r@[j1] as int, r@[j2] as int),
{
    let mut order: Vec<usize> = Vec::new();
    let n = keys.len();
    let mut i: usize = 0;
    while i < n
        invariant
            i <= n,
            n == keys@.len(),
            order@.len() == i,
            forall|j: int| 0 <= j < order@.len() ==> #[trigger] order@[j] < i,
            forall|k: usize| (k as int) < i ==> #[trigger] order@.contains(k),
            forall|j1: int, j2: int|
                0 <= j1 < j2 < order@.len() ==> draws_before(keys@, order@[j1] as int, order@[j2] as int),
        decreases n - i,
    {
        let ki = keys[i];
        let mut p: usize = 0;
        while p < order.len() && keys[order[p]] > ki
            invariant
                p <= order@.len(),
                i < n,
                n == keys@.len(),
                ki == keys@[i as int],
                forall|j: int| 0 <= j < order@.len() ==> #[trigger] order@[j] < i,
                forall|q: int| 0 <= q < p ==> keys@[#[trigger] order@[q] as int] > ki,
            decreases order@.len() - p,
        {
            p = p + 1;
        }
        let ghost before = order@;
        order.insert(p, i);
        proof {
            before.insert_ensures(p as int, i as usize);
            assert forall|j1: int, j2: int| 0 <= j1 < j2 < order@.len() implies draws_before(
                keys@,
                order@[j1] as int,
                order@[j2] as int,
            ) by {
                if j2 < p {
                    assert(order@[j1] == before[j1] && order@[j2] == before[j2]);
                    assert(draws_before(keys@, before[j1] as int, before[j2] as int));
                } else if p < j1 {
                    assert(order@[j1] == before[j1 - 1] && order@[j2] == before[j2 - 1]);
                    assert(draws_before(keys@, before[j1 - 1] as int, before[j2 - 1] as int));
                } else if j1 == p {
                    assert(order@[j1] == i && order@[j2] == before[j2 - 1]);
                    assert(keys@[before[p as int] as int] <= ki);
                    if j2 - 1 > p {
                        assert(draws_before(keys@, before[p as int] as int, before[j2 - 1] as int));
                    }
                    assert(keys@[before[j2 - 1] as int] <= ki);
                    assert(before[j2 - 1] < i);
                } else if j2 == p {
                    assert(order@[j1] == before[j1] && order@[j2] == i);
                    assert(keys@[before[j1] as int] > ki);
                } else {
                    assert(j1 < p && p < j2);
                    assert(order@[j1] == before[j1] && order@[j2] == before[j2 - 1]);
                    assert(draws_before(keys@, before[j1] as int, before[j2 - 1] as int));
                }
            }
            assert forall|k: usize| (k as int) < i + 1 implies #[trigger] order@.contains(k) by {
                if k == i {
                    assert(order@[p as int] == i);
                } else {
                    assert(before.contains(k));
                    let jw = choose|j: int| 0 <= j < before.len() && before[j] == k;
                    if jw < p {
                        assert(order@[jw] == k);
                    } else {
                        assert(order@[jw + 1] == k);
                    }
                }
            }
            assert forall|j: int| 0 <= j < order@.len() implies #[trigger] order@[j] < i + 1 by {
                if j < p {
                    assert(order@[j] == before[j]);
                } else if j == p {
                } else {
                    assert(order@[j] == before[j - 1]);
                }
            }
        }
        i = i + 1;
    }
    order
}

/// Gather the projected corner points of the listed faces: entry `j` holds
/// the four screen points of face `picks[j]`, in face order.
pub fn gather_quads(screen: &Vec<IVec2>, faces: &Vec<Face>, picks: &Vec<usize>) -> (r: Vec<
    ScreenQuad,
>)
    requires
        forall|i: int| 0 <= i < faces@.len() ==> (#[trigger] faces@[i]).wf(screen@.len() as int),
        forall|j: int| 0 <= j < picks@.len() ==> #[trigger] picks@[j] < faces@.len(),
    ensures
        r@.len() == picks@.len(),
        forall|j: int|
            0 <= j < picks@.len() ==> #[trigger] r@[j] == (ScreenQuad {
                p0: screen@[faces@[picks@[j] as int].a as int],
                p1: screen@[faces@[picks@[j] as int].b as int],
                p2: screen@[faces@[picks@[j] as int].c as int],
                p3: screen@[faces@[picks@[j] as int].d as int],
            }),
{
    let mut r: Vec<ScreenQuad> = Vec::new();
    let n = picks.len();
    let mut j: usize = 0;
    while j < n
        invariant
            j <= n,
            n == picks@.len(),
            r@.len() == j,
            forall|i: int| 0 <= i < faces@.len() ==> (#[trigger] faces@[i]).wf(screen@.len() as int),
            forall|q: int| 0 <= q < picks@.len() ==> #[trigger] picks@[q] < faces@.len(),
            forall|q: int|
                0 <= q < j ==> #[trigger] r@[q] == (ScreenQuad {
                    p0: screen@[faces@[picks@[q] as int].a as int],
                    p1: screen@[faces@[picks@[q] as int].b as int],
                    p2: screen@[faces@[picks@[q] as int].c as int],
                    p3: screen@[faces@[picks@[q] as int].d as int],
                }),
        decreases n - j,
    {
        let f = faces[picks[j]];
        r.push(ScreenQuad { p0: screen[f.a], p1: screen[f.b], p2: screen[f.c], p3: screen[f.d] });
        j = j + 1;
    }
    r
}

/// Gather the colors of the listed faces: entry `j` is the color of face
/// `picks[j]`.
pub fn gather_colors(colors: &Vec<Color>, picks: &Vec<usize>) -> (r: Vec<Color>)
    requires
        forall|j: int| 0 <= j < picks@.len() ==> #[trigger] picks@[j] < colors@.len(),
    ensures
        r@.len() == picks@.len(),
        forall|j: int| 0 <= j < picks@.len() ==> #[trigger] r@[j] == colors@[picks@[j] as int],
{
    let mut r: Vec<Color> = Vec::new();
    let n = picks.len();
    let mut j: usize = 0;
    while j < n
        invariant
            j <= n,
            n == picks@.len(),
            r@.len() == j,
            forall|q: int| 0 <= q < picks@.len() ==> #[trigger] picks@[q] < colors@.len(),
            forall|q: int| 0 <= q < j ==> #[trigger] r@[q] == colors@[picks@[q] as int],
        decreases n - j,
    {
        r.push(colors[picks[j]]);
        j = j + 1;
    }
    r
}

/// The six quad faces of the unit cube, each a run of four vertex indices
/// around the quad, diagonal `a - c`.
pub fn cube_faces() -> (r: Vec<Face>)
    ensures
        r@.len() == 6,
        r@[0] == (Face { a: 0, b: 1, c: 2, d: 3 }),
        r@[1] == (Face { a: 4, b: 5, c: 6, d: 7 }),
        r@[2] == (Face { a: 0, b: 1, c: 5, d: 4 }),
        r@[3] == (Face { a: 2, b: 3, c: 7, d: 6 }),
        r@[4] == (Face { a: 0, b: 3, c: 7, d: 4 }),
        r@[5] == (Face { a: 1, b: 2, c: 6, d: 5 }),
        forall|i: int| 0 <= i < 6 ==> (#[trigger] r@[i]).wf(8),
{
    let mut r: Vec<Face> = Vec::new();
    r.push(Face { a: 0, b: 1, c: 2, d: 3 });
    r.push(Face { a: 4, b: 5, c: 6, d: 7 });
    r.push(Face { a: 0, b: 1, c: 5, d: 4 });
    r.push(Face { a: 2, b: 3, c: 7, d: 6 });
    r.push(Face { a: 0, b: 3, c: 7, d: 4 });
    r.push(Face { a: 1, b: 2, c: 6, d: 5 });
    r
}

/// The fixed face colors of the demo cube, one per face of [`cube_faces`].
pub fn cube_colors() -> (r: Vec<Color>)
    ensures
        r@.len() == 6,
        r@[0] == Color::Red,
        r@[1] == Color::Green,
        r@[2] == Color::Blue,
        r@[3] == Color::Yellow,
        r@[4] == Color::White,
        r@[5] == Color::Magenta,
{
    let mut r: Vec<Color> = Vec::new();
    r.push(Color::Red);
    r.push(Color::Green);
    r.push(Color::Blue);
    r.push(Color::Yellow);
    r.push(Color::White);
    r.push(Color::Magenta);
    r
}

} // verus!

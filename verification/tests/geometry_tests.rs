use term3d::geometry::IVec2;
use term3d::geometry::clip_box;
use term3d::geometry::point_in_tri;
use term3d::geometry::tri_bounding_box;

fn v(x: i32, y: i32) -> IVec2 {
    IVec2::new(x, y)
}

#[test]
fn perp_dot_product_matches_formula() {
    assert_eq!(v(2, 3).perp_dot_product(&v(4, 5)), 2 * 5 - 3 * 4);
    assert_eq!(v(-1, 7).perp_dot_product(&v(0, -2)), (-1) * (-2) - 7 * 0);
    assert_eq!(v(0, 0).perp_dot_product(&v(9, 9)), 0);
}

#[test]
fn bounding_box_contains_all_three_points() {
    let pts = [v(3, -2), v(-5, 7), v(10, 0)];
    let (minx, maxx, miny, maxy) = tri_bounding_box(pts[0], pts[1], pts[2]);
    assert_eq!((minx, maxx, miny, maxy), (-5, 10, -2, 7));
    for p in &pts {
        assert!(minx <= p.x && p.x <= maxx);
        assert!(miny <= p.y && p.y <= maxy);
    }
}

#[test]
fn bounding_box_of_single_point_is_that_point() {
    let (minx, maxx, miny, maxy) = tri_bounding_box(v(4, 4), v(4, 4), v(4, 4));
    assert_eq!((minx, maxx, miny, maxy), (4, 4, 4, 4));
}

#[test]
fn clipped_box_stays_inside_bounds() {
    let (minx, maxx, miny, maxy) = clip_box(-5, 100, -2, 30, 80, 24);
    assert_eq!((minx, maxx, miny, maxy), (0, 80, 0, 24));
    assert!(0 <= minx && maxx <= 80);
    assert!(0 <= miny && maxy <= 24);
}

#[test]
fn clip_keeps_interior_box_unchanged() {
    assert_eq!(clip_box(3, 9, 2, 5, 80, 24), (3, 9, 2, 5));
}

#[test]
fn triangle_contains_its_own_vertices() {
    let (a, b, c) = (v(1, 1), v(6, 1), v(1, 6));
    assert!(point_in_tri(a, b, c, a));
    assert!(point_in_tri(a, b, c, b));
    assert!(point_in_tri(a, b, c, c));
    // The same holds with the opposite winding.
    assert!(point_in_tri(a, c, b, a));
    assert!(point_in_tri(a, c, b, b));
    assert!(point_in_tri(a, c, b, c));
}

#[test]
fn triangle_classification_matches_edge_function() {
    let (a, b, c) = (v(1, 1), v(6, 1), v(1, 6));
    // Inside: offsets q from a with q.x >= 0, q.y >= 0, q.x + q.y <= 5.
    assert!(point_in_tri(a, b, c, v(2, 2)));
    assert!(point_in_tri(a, b, c, v(4, 3)));
    // On an edge counts as inside.
    assert!(point_in_tri(a, b, c, v(3, 1)));
    // Outside.
    assert!(!point_in_tri(a, b, c, v(5, 3)));
    assert!(!point_in_tri(a, b, c, v(0, 0)));
    assert!(!point_in_tri(a, b, c, v(7, 1)));
}

#[test]
fn degenerate_triangle_contains_nothing() {
    let (a, b, c) = (v(2, 2), v(4, 4), v(6, 6));
    assert!(!point_in_tri(a, b, c, v(4, 4)));
    assert!(!point_in_tri(a, b, c, v(2, 2)));
    assert!(!point_in_tri(a, b, c, v(3, 3)));
}

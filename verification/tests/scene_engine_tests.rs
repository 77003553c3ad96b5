use term3d::canvas::Color;
use term3d::engine::CamAction;
use term3d::engine::FramePlan;
use term3d::engine::InputEvent;
use term3d::engine::LoopState;
use term3d::engine::camera_action;
use term3d::engine::plan_frame;
use term3d::geometry::IVec2;
use term3d::scene::Face;
use term3d::scene::cube_colors;
use term3d::scene::cube_faces;
use term3d::scene::depth_order;
use term3d::scene::face_on_screen;
use term3d::scene::gather_colors;
use term3d::scene::gather_quads;
use term3d::scene::visible_faces;

fn v(x: i32, y: i32) -> IVec2 {
    IVec2::new(x, y)
}

#[test]
fn face_with_one_visible_vertex_is_on_screen() {
    let screen = vec![v(5, 5), v(-3, 2), v(90, 2), v(4, 30)];
    let depth = vec![true, true, true, true];
    let f = Face { a: 0, b: 1, c: 2, d: 3 };
    assert!(face_on_screen(&screen, &depth, &f, 80, 24));
}

#[test]
fn face_with_all_vertices_outside_is_excluded() {
    // Every projected point is outside (0,80) x (0,24): coordinate 0 itself
    // does not count as inside.
    let screen = vec![v(0, 5), v(-3, 2), v(80, 2), v(4, 24)];
    let depth = vec![true, true, true, true];
    let f = Face { a: 0, b: 1, c: 2, d: 3 };
    assert!(!face_on_screen(&screen, &depth, &f, 80, 24));
}

#[test]
fn face_with_no_positive_depth_is_excluded() {
    let screen = vec![v(5, 5), v(6, 6), v(7, 7), v(8, 8)];
    let depth = vec![false, false, false, false];
    let f = Face { a: 0, b: 1, c: 2, d: 3 };
    assert!(!face_on_screen(&screen, &depth, &f, 80, 24));
}

#[test]
fn visible_faces_filters_and_keeps_order() {
    let screen = vec![v(5, 5), v(-3, 2), v(90, 2), v(7, 7)];
    let depth = vec![true, true, true, false];
    let faces = vec![
        Face { a: 0, b: 1, c: 1, d: 1 },  // vertex 0 visible
        Face { a: 1, b: 2, c: 2, d: 1 },  // nothing visible
        Face { a: 3, b: 3, c: 3, d: 3 },  // visible point but depth <= 0
        Face { a: 1, b: 0, c: 2, d: 1 },  // vertex 0 visible again
    ];
    let vis = visible_faces(&screen, &depth, &faces, 80, 24);
    assert_eq!(vis, vec![0, 3]);
}

#[test]
fn depth_order_is_descending_with_late_faces_first_on_ties() {
    // Ascending stable sort of keys [5, 1, 5, 3] gives indices
    // [1, 3, 0, 2]; reversed, the draw order is [2, 0, 3, 1].
    let keys = vec![5u64, 1, 5, 3];
    assert_eq!(depth_order(&keys), vec![2, 0, 3, 1]);
}

#[test]
fn depth_order_handles_empty_and_single_lists() {
    let none: Vec<u64> = Vec::new();
    assert_eq!(depth_order(&none), Vec::<usize>::new());
    assert_eq!(depth_order(&vec![7u64]), vec![0]);
}

#[test]
fn depth_order_is_a_permutation_sorted_by_key() {
    let keys = vec![4u64, 9, 0, 9, 4];
    let order = depth_order(&keys);
    let mut seen = vec![false; keys.len()];
    for &i in &order {
        assert!(!seen[i]);
        seen[i] = true;
    }
    assert!(seen.iter().all(|&s| s));
    for w in order.windows(2) {
        let (a, b) = (w[0], w[1]);
        assert!(keys[a] > keys[b] || (keys[a] == keys[b] && a > b));
    }
}

#[test]
fn gather_picks_points_and_colors_by_face() {
    let screen = vec![v(1, 1), v(2, 2), v(3, 3), v(4, 4), v(5, 5)];
    let faces = vec![Face { a: 0, b: 1, c: 2, d: 3 }, Face { a: 4, b: 3, c: 2, d: 1 }];
    let colors = vec![Color::Red, Color::Green];
    let picks = vec![1];
    let quads = gather_quads(&screen, &faces, &picks);
    assert_eq!(quads.len(), 1);
    assert_eq!(quads[0].p0, v(5, 5));
    assert_eq!(quads[0].p1, v(4, 4));
    assert_eq!(quads[0].p2, v(3, 3));
    assert_eq!(quads[0].p3, v(2, 2));
    assert_eq!(gather_colors(&colors, &picks), vec![Color::Green]);
}

#[test]
fn cube_mesh_has_six_quads_with_fixed_colors() {
    let faces = cube_faces();
    let colors = cube_colors();
    assert_eq!(faces.len(), 6);
    assert_eq!(colors.len(), 6);
    assert_eq!(faces[0], Face { a: 0, b: 1, c: 2, d: 3 });
    assert_eq!(faces[5], Face { a: 1, b: 2, c: 6, d: 5 });
    assert_eq!(
        colors,
        vec![Color::Red, Color::Green, Color::Blue, Color::Yellow, Color::White, Color::Magenta]
    );
    for f in &faces {
        assert!(f.a < 8 && f.b < 8 && f.c < 8 && f.d < 8);
    }
}

#[test]
fn escape_terminates_without_drawing() {
    let p = plan_frame(Some(InputEvent::Character('\u{1b}')));
    assert_eq!(p.next, LoopState::Terminated);
    assert!(!p.draw);
    assert!(!p.update_camera);
    assert!(!p.requery_size);
}

#[test]
fn resize_requeries_dimensions_instead_of_moving_camera() {
    let p = plan_frame(Some(InputEvent::KeyResize));
    assert_eq!(p.next, LoopState::Running);
    assert!(p.requery_size);
    assert!(!p.update_camera);
    assert!(p.draw);
}

#[test]
fn ordinary_events_go_to_the_camera() {
    for key in [None, Some(InputEvent::Character('w')), Some(InputEvent::KeyUp), Some(InputEvent::Other)] {
        let p: FramePlan = plan_frame(key);
        assert_eq!(p.next, LoopState::Running);
        assert!(p.update_camera);
        assert!(p.draw);
        assert!(!p.requery_size);
    }
}

#[test]
fn camera_key_map_matches_the_layout() {
    assert_eq!(camera_action(Some(InputEvent::Character('q'))), CamAction::MoveVertical { dir: 1 });
    assert_eq!(camera_action(Some(InputEvent::Character('e'))), CamAction::MoveVertical { dir: -1 });
    assert_eq!(
        camera_action(Some(InputEvent::Character('w'))),
        CamAction::MoveHorizontal { ax: 1, bx: 0, az: 0, bz: 1 }
    );
    assert_eq!(
        camera_action(Some(InputEvent::Character('s'))),
        CamAction::MoveHorizontal { ax: -1, bx: 0, az: 0, bz: -1 }
    );
    assert_eq!(
        camera_action(Some(InputEvent::Character('a'))),
        CamAction::MoveHorizontal { ax: 0, bx: -1, az: 1, bz: 0 }
    );
    assert_eq!(
        camera_action(Some(InputEvent::Character('d'))),
        CamAction::MoveHorizontal { ax: 0, bx: 1, az: -1, bz: 0 }
    );
    assert_eq!(camera_action(Some(InputEvent::KeyUp)), CamAction::Turn { dpitch: -1, dyaw: 0 });
    assert_eq!(camera_action(Some(InputEvent::KeyDown)), CamAction::Turn { dpitch: 1, dyaw: 0 });
    assert_eq!(camera_action(Some(InputEvent::KeyLeft)), CamAction::Turn { dpitch: 0, dyaw: -1 });
    assert_eq!(camera_action(Some(InputEvent::KeyRight)), CamAction::Turn { dpitch: 0, dyaw: 1 });
    assert_eq!(camera_action(Some(InputEvent::Character('z'))), CamAction::Stay);
    assert_eq!(camera_action(None), CamAction::Stay);
}

#[test]
fn forward_at_zero_yaw_moves_only_z() {
    // At yaw 0 the heading terms are sin_term = 0 and cos_term = speed * dt.
    // With speed 10 and dt 0.1 the cosine term is the full unit step; the
    // commanded displacement leaves x untouched and moves z by all of it.
    let action = camera_action(Some(InputEvent::Character('w')));
    match action {
        CamAction::MoveHorizontal { ax, bx, az, bz } => {
            let sin_term = 0i32;
            let cos_term = 1i32;  // stands for 10 * 0.1 in fixed units
            let dx = ax * sin_term + bx * cos_term;
            let dz = az * sin_term + bz * cos_term;
            assert_eq!(dx, 0);
            assert_eq!(dz, cos_term);
        }
        _ => panic!("forward must command a horizontal move"),
    }
}

#[test]
fn strafe_is_orthogonal_and_reversible() {
    let w = camera_action(Some(InputEvent::Character('w')));
    let s = camera_action(Some(InputEvent::Character('s')));
    let a = camera_action(Some(InputEvent::Character('a')));
    let d = camera_action(Some(InputEvent::Character('d')));
    let delta = |act: &CamAction, sin_t: i32, cos_t: i32| -> (i32, i32) {
        match act {
            CamAction::MoveHorizontal { ax, bx, az, bz } => {
                (ax * sin_t + bx * cos_t, az * sin_t + bz * cos_t)
            }
            _ => panic!("expected a horizontal move"),
        }
    };
    for &(sin_t, cos_t) in &[(3, 4), (-2, 7), (0, 1), (5, 0)] {
        let fw = delta(&w, sin_t, cos_t);
        let bk = delta(&s, sin_t, cos_t);
        let lf = delta(&a, sin_t, cos_t);
        let rt = delta(&d, sin_t, cos_t);
        assert_eq!(bk, (-fw.0, -fw.1));
        assert_eq!(rt, (-lf.0, -lf.1));
        assert_eq!(fw.0 * lf.0 + fw.1 * lf.1, 0);
    }
}

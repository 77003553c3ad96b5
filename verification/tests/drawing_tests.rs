use term3d::canvas::Canvas;
use term3d::canvas::Color;
use term3d::canvas::ColorPair;
use term3d::geometry::IVec2;
use term3d::raster::ScreenQuad;

fn v(x: i32, y: i32) -> IVec2 {
    IVec2::new(x, y)
}

fn glyph(c: &Canvas, x: i32, y: i32) -> char {
    c.cell(x, y).glyph
}

#[test]
fn new_canvas_is_blank() {
    let c = Canvas::new(10, 6);
    assert_eq!(c.cols(), 10);
    assert_eq!(c.rows(), 6);
    for x in 0..10 {
        for y in 0..6 {
            assert_eq!(glyph(&c, x, y), ' ');
        }
    }
}

#[test]
fn draw_cell_sets_one_cell_in_active_color() {
    let mut c = Canvas::new(8, 8);
    c.set_color_pair(ColorPair::new(Color::Red, Color::Black));
    c.draw_cell('x', 3, 2);
    let cell = c.cell(3, 2);
    assert_eq!(cell.glyph, 'x');
    assert_eq!(cell.color, ColorPair::new(Color::Red, Color::Black));
    assert_eq!(glyph(&c, 2, 3), ' ');
}

#[test]
fn out_of_bounds_draw_is_dropped() {
    let mut c = Canvas::new(4, 4);
    c.draw_cell('x', -1, 0);
    c.draw_cell('x', 0, 4);
    c.draw_cell('x', 99, 99);
    for x in 0..4 {
        for y in 0..4 {
            assert_eq!(glyph(&c, x, y), ' ');
        }
    }
}

#[test]
fn clear_blanks_everything_and_resets_color() {
    let mut c = Canvas::new(5, 5);
    c.set_color_pair(ColorPair::new(Color::Green, Color::Black));
    c.draw_cell('#', 1, 1);
    c.draw_cell('#', 4, 4);
    c.clear();
    for x in 0..5 {
        for y in 0..5 {
            let cell = c.cell(x, y);
            assert_eq!(cell.glyph, ' ');
            assert_eq!(cell.color, ColorPair::default());
        }
    }
}

#[test]
fn low_slope_line_matches_bresenham() {
    // The line from (0,0) to (4,2): the standard low-slope walk paints one
    // cell per column from start to end inclusive.
    let mut c = Canvas::new(10, 10);
    c.draw_line(0, 0, 4, 2);
    let expected = [(0, 0), (1, 0), (2, 1), (3, 1), (4, 2)];
    for &(x, y) in &expected {
        assert_eq!(glyph(&c, x, y), '#');
    }
    // The y sequence across the walked columns never decreases.
    let mut last_y = 0;
    for &(_, y) in &expected {
        assert!(y >= last_y);
        last_y = y;
    }
    // No other cell is painted.
    for x in 0..10 {
        for y in 0..10 {
            if !expected.contains(&(x, y)) {
                assert_eq!(glyph(&c, x, y), ' ');
            }
        }
    }
}

#[test]
fn reversed_low_slope_line_paints_the_same_walk() {
    let mut a = Canvas::new(10, 10);
    let mut b = Canvas::new(10, 10);
    a.draw_line(4, 2, 0, 0);
    b.draw_line(0, 0, 4, 2);
    for x in 0..10 {
        for y in 0..10 {
            assert_eq!(glyph(&a, x, y), glyph(&b, x, y));
        }
    }
}

#[test]
fn vertical_line_covers_inclusive_range_in_active_color() {
    let mut c = Canvas::new(6, 6);
    c.set_color_pair(ColorPair::new(Color::Blue, Color::Black));
    c.draw_line(2, 1, 2, 3);
    for y in 1..=3 {
        let cell = c.cell(2, y);
        assert_eq!(cell.glyph, '|');
        assert_eq!(cell.color, ColorPair::new(Color::Blue, Color::Black));
    }
    assert_eq!(glyph(&c, 2, 0), ' ');
    assert_eq!(glyph(&c, 2, 4), ' ');
}

#[test]
fn vertical_line_with_reversed_range_paints_nothing() {
    let mut c = Canvas::new(6, 6);
    c.draw_line(2, 3, 2, 1);
    for x in 0..6 {
        for y in 0..6 {
            assert_eq!(glyph(&c, x, y), ' ');
        }
    }
}

#[test]
fn horizontal_line_covers_inclusive_range() {
    let mut c = Canvas::new(6, 6);
    c.draw_line(1, 4, 3, 4);
    for x in 1..=3 {
        assert_eq!(glyph(&c, x, 4), '-');
    }
    assert_eq!(glyph(&c, 0, 4), ' ');
    assert_eq!(glyph(&c, 4, 4), ' ');
}

#[test]
fn steep_line_walks_along_y() {
    // From (1,1) to (2,5): high-slope, one cell per row from start to end
    // inclusive, stepping along x somewhere in the walk.
    let mut c = Canvas::new(8, 8);
    c.draw_line(1, 1, 2, 5);
    let mut painted = 0;
    for y in 0..8 {
        for x in 0..8 {
            if glyph(&c, x, y) == '#' {
                painted += 1;
                assert!((1..=2).contains(&x));
                assert!((1..=5).contains(&y));
            }
        }
    }
    assert_eq!(painted, 5);
    // Both endpoints are on the line.
    assert_eq!(glyph(&c, 1, 1), '#');
    assert_eq!(glyph(&c, 2, 5), '#');
}

#[test]
fn triangle_fill_matches_edge_function() {
    let mut c = Canvas::new(10, 10);
    let red = ColorPair::new(Color::Red, Color::Black);
    c.draw_tri(red, v(1, 1), v(6, 1), v(1, 6));
    // Inside cells: x >= 1, y >= 1, (x-1) + (y-1) <= 5.
    for x in 0..10 {
        for y in 0..10 {
            let inside = x >= 1 && y >= 1 && (x - 1) + (y - 1) <= 5;
            if inside {
                let cell = c.cell(x, y);
                assert_eq!(cell.glyph, '#');
                assert_eq!(cell.color, red);
            } else {
                assert_eq!(glyph(&c, x, y), ' ');
            }
        }
    }
}

#[test]
fn degenerate_triangle_paints_nothing() {
    let mut c = Canvas::new(10, 10);
    c.draw_tri(ColorPair::new(Color::Red, Color::Black), v(2, 2), v(4, 4), v(6, 6));
    for x in 0..10 {
        for y in 0..10 {
            assert_eq!(glyph(&c, x, y), ' ');
        }
    }
}

#[test]
fn triangle_fill_clips_to_surface() {
    let mut c = Canvas::new(4, 4);
    c.draw_tri(ColorPair::new(Color::Red, Color::Black), v(-5, -5), v(20, -5), v(-5, 20));
    // The triangle covers the whole surface once clipped.
    for x in 0..4 {
        for y in 0..4 {
            assert_eq!(glyph(&c, x, y), '#');
        }
    }
}

#[test]
fn later_face_overwrites_earlier_on_overlap() {
    // Two overlapping quads drawn back-to-front: the one drawn last wins
    // on the overlap, as the painter's algorithm asks.
    let mut c = Canvas::new(12, 8);
    let quads = vec![
        ScreenQuad { p0: v(1, 1), p1: v(6, 1), p2: v(6, 5), p3: v(1, 5) },
        ScreenQuad { p0: v(4, 1), p1: v(9, 1), p2: v(9, 5), p3: v(4, 5) },
    ];
    let colors = vec![Color::Red, Color::Green];
    let order = vec![0, 1];
    c.draw_face_list(&quads, &colors, &order);
    // A cell only the first quad covers.
    assert_eq!(c.cell(2, 2).color.fg, Color::Red);
    // A cell both cover: the later face wins.
    assert_eq!(c.cell(5, 3).color.fg, Color::Green);
    // A cell only the second covers.
    assert_eq!(c.cell(8, 4).color.fg, Color::Green);
    // A cell neither covers.
    assert_eq!(glyph(&c, 11, 7), ' ');
}

#[test]
fn empty_draw_list_changes_nothing() {
    let mut c = Canvas::new(5, 5);
    let quads: Vec<ScreenQuad> = Vec::new();
    let colors: Vec<Color> = Vec::new();
    let order: Vec<usize> = Vec::new();
    c.draw_face_list(&quads, &colors, &order);
    for x in 0..5 {
        for y in 0..5 {
            assert_eq!(glyph(&c, x, y), ' ');
        }
    }
}

use drone_core::attitude_view::colour::Colour;
use drone_core::attitude_view::geometry::fan_triangulate;
use drone_core::attitude_view::raster::{draw_horiz_line, sort_points_by_y, Point};
use drone_core::attitude_view::{framebuffer_to_rgba, HEIGHT, WIDTH};

#[test]
fn colour_new_keeps_components() {
    let c = Colour::new(28, 30, 36);
    assert_eq!((c.r, c.g, c.b), (28, 30, 36));
}

#[test]
fn as_0rgb_packs_components() {
    assert_eq!(Colour::new(0x12, 0x34, 0x56).as_0rgb(), 0x0012_3456);
    assert_eq!(Colour::new(255, 255, 255).as_0rgb(), 0x00ff_ffff);
    assert_eq!(Colour::new(0, 0, 0).as_0rgb(), 0);
    assert_eq!(Colour::new(90, 160, 235).as_0rgb(), (90 << 16) + (160 << 8) + 235);
}

#[test]
fn rgba_unpacks_pixels() {
    let buffer = [Colour::new(1, 2, 3).as_0rgb(), 0x00ab_cdef];
    let mut rgba = [7u8; 10];
    framebuffer_to_rgba(&buffer, &mut rgba);
    assert_eq!(rgba, [1, 2, 3, 255, 0xab, 0xcd, 0xef, 255, 7, 7]);
}

#[test]
fn rgba_round_trips_a_colour() {
    let c = Colour::new(90, 160, 235);
    let mut rgba = [0u8; 4];
    framebuffer_to_rgba(&[c.as_0rgb()], &mut rgba);
    assert_eq!(rgba, [90, 160, 235, 255]);
}

#[test]
fn horiz_line_fills_inclusive_span_in_either_order() {
    let mut buffer = vec![0u32; WIDTH * HEIGHT];
    draw_horiz_line(&mut buffer, 7, 3, 0, 9);
    let row0 = (HEIGHT - 1) * WIDTH;
    for x in 0..WIDTH {
        let expected = if (3..=7).contains(&x) { 9 } else { 0 };
        assert_eq!(buffer[row0 + x], expected);
    }
    assert_eq!(buffer.iter().filter(|&&p| p == 9).count(), 5);
}

#[test]
fn horiz_line_clips_and_ignores_offscreen_rows() {
    let mut buffer = vec![0u32; WIDTH * HEIGHT];
    draw_horiz_line(&mut buffer, (WIDTH - 2) as u32, u32::MAX, (HEIGHT - 1) as u32, 5);
    assert_eq!(buffer[WIDTH - 2], 5);
    assert_eq!(buffer[WIDTH - 1], 5);
    assert_eq!(buffer.iter().filter(|&&p| p == 5).count(), 2);

    let before = buffer.clone();
    draw_horiz_line(&mut buffer, 0, 10, HEIGHT as u32, 1);
    assert_eq!(buffer, before);
    draw_horiz_line(&mut buffer, WIDTH as u32, WIDTH as u32 + 3, 0, 1);
    assert_eq!(buffer, before);
}

#[test]
fn points_sorted_by_decreasing_y() {
    let a = Point { x: 1, y: 5 };
    let b = Point { x: 2, y: 9 };
    let c = Point { x: 3, y: 1 };
    assert_eq!(sort_points_by_y(a, b, c), (b, a, c));
    assert_eq!(sort_points_by_y(c, a, b), (b, a, c));
    assert_eq!(sort_points_by_y(b, c, a), (b, a, c));
}

#[test]
fn points_with_equal_y() {
    let a = Point { x: 1, y: 1 };
    let b = Point { x: 2, y: 1 };
    let c = Point { x: 3, y: 2 };
    assert_eq!(sort_points_by_y(a, b, c), (c, b, a));
    assert_eq!(sort_points_by_y(a, b, a), (a, b, a));
}

#[test]
fn fan_triangulation_of_quad_and_triangle() {
    let faces = vec![vec![1, 2, 3, 4], vec![2, 3, 4]];
    assert_eq!(
        fan_triangulate(&faces, 4),
        vec![(0, 1, 2), (0, 2, 3), (1, 2, 3)]
    );
}

#[test]
fn fan_triangulation_skips_malformed_indices() {
    let faces = vec![vec![1, 2, 3, 9, 4], vec![0, 1, 2], vec![5, 1], vec![4, 1, 2]];
    assert_eq!(fan_triangulate(&faces, 4), vec![(0, 1, 2), (3, 0, 1)]);
    assert_eq!(fan_triangulate(&vec![vec![7]], 4), vec![]);
}
